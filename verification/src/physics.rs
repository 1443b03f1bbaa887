//! One step of a flight: integration under gravity, wind and linear drag,
//! the bounce off a reflecting quadrilateral, and the step's outcome; and a
//! whole flight predicted by repeating that step.

use vstd::prelude::*;
use crate::fixed::{
    abs_int, clamp, floor_div, floor_sqrt, in_range, is_floor_sqrt, isqrt, lemma_floor_div_bound,
    lemma_floor_div_monotone, lemma_product_bound, product, saturate, LIMIT, SCALE,
    TICKS_PER_SECOND,
};
use crate::geometry::{
    bounce_surface_edges, dot, dot_2d, inside_polygon, point_in_polygon, segment_intersection,
    segments_cross, travel_fraction, Vec2,
};
use crate::model::{
    Barrier, BounceSurface, Environment, LaunchConfig, Level, LevelView, Prediction,
    PredictionView, Projectile, StepOutcome, Target,
};

verus! {

/// The engine's sub-step: 1/240 s.
pub const FIXED_STEP: u32 = 1000;

/// A flight longer than this (60 s) is cut off.
pub const MAX_SIM_TIME: i64 = 14_400_000;

/// Samples a predicted path is budgeted for; a prediction runs at most six
/// steps per sample.
pub const TRAJECTORY_SAMPLES: usize = 320;

/// Steps a prediction runs at most: six for each sample.
pub const PREDICTION_STEPS: usize = 1920;

/// Thousandths of its velocity a projectile keeps through a bounce, beyond
/// what restitution takes.
pub const BOUNCE_DAMPING: i64 = 995;

/// How far off the surface a bounce leaves the projectile (0.05 m).
pub const SURFACE_OFFSET: i64 = 50_000;

/// `SCALE` squared.
pub const SCALE_SQUARED: i128 = 1_000_000_000_000;

/// `SCALE` cubed.
pub const SCALE_CUBED: i128 = 1_000_000_000_000_000_000;

/// Where a step's travel met an edge of the bounce surface.
#[derive(Clone, Copy, Debug, PartialEq, Eq, Structural)]
pub struct Hit {
    /// How far along the step's travel, as a fraction of `SCALE`.
    pub t: i64,
    /// The meeting point.
    pub point: Vec2,
    /// The edge's unit normal, turned against the velocity.
    pub normal: Vec2,
}

impl Hit {
    pub open spec fn wf(self) -> bool {
        &&& 0 <= self.t <= SCALE
        &&& self.point.wf()
        &&& -SCALE <= self.normal.x <= SCALE
        &&& -SCALE <= self.normal.y <= SCALE
    }
}

/// The launch velocity: the speed along the heading.
pub open spec fn launch_velocity_spec(config: LaunchConfig) -> Vec2 {
    Vec2 {
        x: (config.speed * config.heading.cos / (SCALE as int)) as i64,
        y: (config.speed * config.heading.sin / (SCALE as int)) as i64,
    }
}

/// The projectile at the moment of launch: on the vertical axis at the
/// launch height (never below ground), with the launch velocity.
pub open spec fn launch_projectile_spec(config: LaunchConfig) -> Projectile {
    Projectile {
        position: Vec2 {
            x: 0,
            y: if config.height > 0 {
                config.height
            } else {
                0
            },
        },
        velocity: launch_velocity_spec(config),
        elapsed: 0,
        bounces: 0,
    }
}

fn along(speed: i64, component: i64) -> (r: i64)
    requires
        0 <= speed <= LIMIT,
        -SCALE <= component <= SCALE,
    ensures
        r == speed * component / (SCALE as int),
        in_range(r as int),
{
    proof {
        lemma_product_bound(speed as int, component as int, 1_000_000_000_000, 1_000_000);
        lemma_floor_div_monotone(
            speed * component,
            1_000_000_000_000_000_000,
            1_000_000,
        );
        lemma_floor_div_monotone(
            -1_000_000_000_000_000_000,
            speed * component,
            1_000_000,
        );
    }
    floor_div(product(speed, component), SCALE as i128) as i64
}

/// The velocity a launch with `config` starts with.
pub fn launch_velocity(config: LaunchConfig) -> (v: Vec2)
    requires
        config.wf(),
    ensures
        v == launch_velocity_spec(config),
        v.wf(),
{
    Vec2 { x: along(config.speed, config.heading.cos), y: along(config.speed, config.heading.sin) }
}

/// The projectile a launch with `config` starts with.
pub fn launch_projectile(config: LaunchConfig) -> (p: Projectile)
    requires
        config.wf(),
    ensures
        p == launch_projectile_spec(config),
        p.wf(),
{
    Projectile {
        position: Vec2 {
            x: 0,
            y: if config.height > 0 {
                config.height
            } else {
                0
            },
        },
        velocity: launch_velocity(config),
        elapsed: 0,
        bounces: 0,
    }
}

/// An acceleration: a constant part less linear drag on the speed `v`.
pub open spec fn acceleration(constant: int, drag: int, v: int) -> int {
    constant - drag * v / (SCALE as int)
}

/// `value` after changing at `rate` per second for `dt` ticks.
pub open spec fn advance(value: int, rate: int, dt: int) -> int {
    clamp(value + rate * dt / (TICKS_PER_SECOND as int))
}

/// The projectile after `dt` ticks of free flight: velocity first, then
/// position by the new velocity, then the clock.
pub open spec fn integrate(p: Projectile, env: Environment, dt: int) -> Projectile {
    let vx = advance(
        p.velocity.x as int,
        acceleration(env.wind_accel_x as int, env.drag_linear as int, p.velocity.x as int),
        dt,
    );
    let vy = advance(
        p.velocity.y as int,
        acceleration(-env.gravity, env.drag_linear as int, p.velocity.y as int),
        dt,
    );
    Projectile {
        position: Vec2 {
            x: advance(p.position.x as int, vx, dt) as i64,
            y: advance(p.position.y as int, vy, dt) as i64,
        },
        velocity: Vec2 { x: vx as i64, y: vy as i64 },
        elapsed: clamp(p.elapsed + dt) as i64,
        bounces: p.bounces,
    }
}

fn acceleration_of(constant: i64, drag: i64, v: i64) -> (a: i128)
    requires
        in_range(constant as int),
        in_range(drag as int),
        in_range(v as int),
    ensures
        a == acceleration(constant as int, drag as int, v as int),
        -2_000_000_000_000_000_000 <= a <= 2_000_000_000_000_000_000,
{
    proof {
        lemma_product_bound(drag as int, v as int, 1_000_000_000_000, 1_000_000_000_000);
        lemma_floor_div_monotone(
            drag * v,
            1_000_000_000_000_000_000_000_000,
            1_000_000,
        );
        lemma_floor_div_monotone(
            -1_000_000_000_000_000_000_000_000,
            drag * v,
            1_000_000,
        );
    }
    (constant as i128) - floor_div(product(drag, v), SCALE as i128)
}

fn advance_by(value: i64, rate: i128, dt: u32) -> (r: i64)
    requires
        in_range(value as int),
        -2_000_000_000_000_000_000 <= rate <= 2_000_000_000_000_000_000,
    ensures
        r == advance(value as int, rate as int, dt as int),
        in_range(r as int),
{
    proof {
        lemma_product_bound(rate as int, dt as int, 2_000_000_000_000_000_000, 0x1_0000_0000);
        lemma_floor_div_bound(rate * dt, TICKS_PER_SECOND as int);
    }
    let change: i128 = floor_div(rate * (dt as i128), TICKS_PER_SECOND as i128);
    saturate((value as i128) + change)
}

fn integrate_step(projectile: &mut Projectile, env: Environment, dt: u32)
    requires
        old(projectile).wf(),
        env.wf(),
    ensures
        *final(projectile) == integrate(*old(projectile), env, dt as int),
        final(projectile).wf(),
{
    let ax: i128 = acceleration_of(env.wind_accel_x, env.drag_linear, projectile.velocity.x);
    let ay: i128 = acceleration_of(-env.gravity, env.drag_linear, projectile.velocity.y);
    let vx: i64 = advance_by(projectile.velocity.x, ax, dt);
    let vy: i64 = advance_by(projectile.velocity.y, ay, dt);
    let x: i64 = advance_by(projectile.position.x, vx as i128, dt);
    let y: i64 = advance_by(projectile.position.y, vy as i128, dt);
    let elapsed: i64 = saturate((projectile.elapsed as i128) + (dt as i128));
    projectile.velocity = Vec2 { x: vx, y: vy };
    projectile.position = Vec2 { x, y };
    projectile.elapsed = elapsed;
}

/// The length of the edge `a..b`, scaled by `SCALE` and rounded down.
pub open spec fn edge_length_scaled(a: Vec2, b: Vec2) -> int {
    floor_sqrt(dot(b.x - a.x, b.y - a.y, b.x - a.x, b.y - a.y) * SCALE_SQUARED)
}

/// The unit normal of the edge `a..b`: its direction turned a quarter turn
/// to the left, scaled by `SCALE`, each coordinate rounded down.
pub open spec fn edge_normal(a: Vec2, b: Vec2) -> Vec2 {
    let len = edge_length_scaled(a, b);
    Vec2 {
        x: ((a.y - b.y) * SCALE_SQUARED / len) as i64,
        y: ((b.x - a.x) * SCALE_SQUARED / len) as i64,
    }
}

/// `normal`, or its opposite where `normal` points along `velocity`.
pub open spec fn facing_normal(normal: Vec2, velocity: Vec2) -> Vec2 {
    if dot(velocity.x as int, velocity.y as int, normal.x as int, normal.y as int) > 0 {
        Vec2 { x: (-normal.x) as i64, y: (-normal.y) as i64 }
    } else {
        normal
    }
}

/// The point the fraction `t` of the way from `from` to `to`.
pub open spec fn point_along(from: Vec2, to: Vec2, t: int) -> Vec2 {
    Vec2 {
        x: (from.x + (to.x - from.x) * t / (SCALE as int)) as i64,
        y: (from.y + (to.y - from.y) * t / (SCALE as int)) as i64,
    }
}

/// Where the travel from `prev` to the projectile's position meets the edge
/// `a..b`, if it does and the edge has a length.
pub open spec fn edge_hit(prev: Vec2, p: Projectile, a: Vec2, b: Vec2) -> Option<Hit> {
    if segments_cross(prev, p.position, a, b) && edge_length_scaled(a, b) > 0 {
        let t = travel_fraction(prev, p.position, a, b);
        Some(
            Hit {
                t: t as i64,
                point: point_along(prev, p.position, t),
                normal: facing_normal(edge_normal(a, b), p.velocity),
            },
        )
    } else {
        None
    }
}

/// The earlier of two hits; the first one on a tie.
pub open spec fn earlier_hit(best: Option<Hit>, candidate: Option<Hit>) -> Option<Hit> {
    match (best, candidate) {
        (_, None) => best,
        (None, Some(_)) => candidate,
        (Some(b), Some(c)) => if c.t < b.t {
            candidate
        } else {
            best
        },
    }
}

/// The earliest hit among the first `n` edges of the quadrilateral, taken
/// in corner order and wrapping.
pub open spec fn earliest_hit(prev: Vec2, p: Projectile, corners: Seq<Vec2>, n: nat) -> Option<Hit>
    decreases n,
{
    if n == 0 {
        None
    } else {
        let i = (n - 1) as int;
        earlier_hit(
            earliest_hit(prev, p, corners, (n - 1) as nat),
            edge_hit(prev, p, corners[i], corners[(i + 1) % 4]),
        )
    }
}

/// `v` with its part along the unit normal `n` removed and sent back scaled
/// by `restitution`, before damping.
pub open spec fn reflect(v: Vec2, n: Vec2, restitution: int) -> (int, int) {
    let d = dot(v.x as int, v.y as int, n.x as int, n.y as int);
    (
        v.x - n.x * (SCALE + restitution) * d / (SCALE_CUBED as int),
        v.y - n.y * (SCALE + restitution) * d / (SCALE_CUBED as int),
    )
}

/// A velocity component after the damping of a bounce.
pub open spec fn damp(v: int) -> int {
    v * BOUNCE_DAMPING / 1000
}

/// The velocity a bounce off a surface with unit normal `n` leaves.
pub open spec fn bounce_velocity(v: Vec2, n: Vec2, restitution: int) -> Vec2 {
    let r = reflect(v, n, restitution);
    Vec2 { x: clamp(damp(r.0)) as i64, y: clamp(damp(r.1)) as i64 }
}

/// One more bounce on the count, which stays at its largest value once
/// there.
pub open spec fn one_more(bounces: u32) -> u32 {
    if bounces < u32::MAX {
        (bounces + 1) as u32
    } else {
        bounces
    }
}

/// The projectile after a bounce at `hit`.
pub open spec fn bounce_at(p: Projectile, hit: Hit, restitution: int) -> Projectile {
    Projectile {
        position: Vec2 {
            x: clamp(hit.point.x + hit.normal.x * SURFACE_OFFSET / (SCALE as int)) as i64,
            y: clamp(hit.point.y + hit.normal.y * SURFACE_OFFSET / (SCALE as int)) as i64,
        },
        velocity: bounce_velocity(p.velocity, hit.normal, restitution),
        elapsed: p.elapsed,
        bounces: one_more(p.bounces),
    }
}

/// The projectile after the upward bounce that frees one found inside the
/// surface.
pub open spec fn bounce_out(p: Projectile, restitution: int) -> Projectile {
    Projectile {
        position: Vec2 { x: p.position.x, y: clamp(p.position.y + SURFACE_OFFSET) as i64 },
        velocity: Vec2 {
            x: p.velocity.x,
            y: (abs_int(p.velocity.y as int) * restitution / (SCALE as int)) as i64,
        },
        elapsed: p.elapsed,
        bounces: one_more(p.bounces),
    }
}

/// The projectile after its step's travel from `prev` has been held against
/// the surface: bounced at the earliest edge met, else bounced out when it
/// ended inside, else as it was.
pub open spec fn resolve_bounce(p: Projectile, surface: BounceSurface, prev: Vec2) -> Projectile {
    match earliest_hit(prev, p, surface.corners@, 4) {
        Some(hit) => bounce_at(p, hit, surface.restitution as int),
        None => if inside_polygon(p.position, surface.corners@) {
            bounce_out(p, surface.restitution as int)
        } else {
            p
        },
    }
}

/// A coordinate of an edge, scaled, is no longer than the edge's scaled
/// length.
pub proof fn lemma_component_within_length(e: int, other: int, len: int)
    by (nonlinear_arith)
    requires
        is_floor_sqrt((e * e + other * other) * 1_000_000_000_000, len),
    ensures
        -len <= e * 1_000_000 <= len,
{
    assert((e * 1_000_000) * (e * 1_000_000) <= (e * e + other * other) * 1_000_000_000_000);
    assert((e * 1_000_000) * (e * 1_000_000) < (len + 1) * (len + 1));
}

/// A coordinate of a unit normal is at most one in magnitude.
pub proof fn lemma_normal_component(e: int, len: int)
    by (nonlinear_arith)
    requires
        len > 0,
        -len <= e * 1_000_000 <= len,
    ensures
        -1_000_000 <= e * 1_000_000_000_000 / len <= 1_000_000,
{
    assert(e * 1_000_000_000_000 == (e * 1_000_000) * 1_000_000);
    assert(e * 1_000_000_000_000 <= len * 1_000_000);
    assert(e * 1_000_000_000_000 >= len * (-1_000_000));
}

proof fn lemma_fraction_of_span(d: int, t: int)
    by (nonlinear_arith)
    requires
        0 <= t <= 1_000_000,
    ensures
        d >= 0 ==> 0 <= d * t / 1_000_000 <= d,
        d < 0 ==> d <= d * t / 1_000_000 <= 0,
{
    if d >= 0 {
        assert(0 <= d * t <= d * 1_000_000);
    } else {
        assert(d * 1_000_000 <= d * t <= 0);
    }
}

fn normal_component(e: i64, len: u128) -> (c: i64)
    requires
        0 < len < 0x1_0000_0000_0000_0000,
        -len <= e * 1_000_000 <= len,
        -2 * LIMIT <= e <= 2 * LIMIT,
    ensures
        c == e * SCALE_SQUARED / (len as int),
        -SCALE <= c <= SCALE,
{
    proof {
        lemma_normal_component(e as int, len as int);
    }
    floor_div((e as i128) * SCALE_SQUARED, len as i128) as i64
}

fn coordinate_along(from: i64, to: i64, t: i64) -> (c: i64)
    requires
        in_range(from as int),
        in_range(to as int),
        0 <= t <= SCALE,
    ensures
        c == from + (to - from) * t / (SCALE as int),
        in_range(c as int),
{
    proof {
        lemma_fraction_of_span(to - from, t as int);
    }
    let span: i64 = to - from;
    let part: i128 = floor_div(product(span, t), SCALE as i128);
    (from as i128 + part) as i64
}

fn hit_on_edge(prev: Vec2, p: &Projectile, a: Vec2, b: Vec2) -> (hit: Option<Hit>)
    requires
        prev.wf(),
        p.wf(),
        a.wf(),
        b.wf(),
    ensures
        hit == edge_hit(prev, *p, a, b),
        hit matches Some(h) ==> h.wf(),
{
    match segment_intersection(prev, p.position, a, b) {
        None => None,
        Some((t, _u)) => {
            let ex: i64 = b.x - a.x;
            let ey: i64 = b.y - a.y;
            let e = Vec2 { x: ex, y: ey };
            let square: i128 = dot_2d(e, e);
            proof {
                assert(square >= 0) by (nonlinear_arith)
                    requires
                        square == ex * ex + ey * ey,
                ;
            }
            let len: u128 = isqrt((square * SCALE_SQUARED) as u128);
            if len == 0 {
                return None;
            }
            proof {
                lemma_component_within_length(ex as int, ey as int, len as int);
                lemma_component_within_length(ey as int, ex as int, len as int);
                assert((a.y - b.y) * 1_000_000 == -(ey * 1_000_000));
            }
            let nx: i64 = normal_component(a.y - b.y, len);
            let ny: i64 = normal_component(ex, len);
            let against: i128 = dot_2d(p.velocity, Vec2 { x: nx, y: ny });
            let normal = if against > 0 {
                Vec2 { x: -nx, y: -ny }
            } else {
                Vec2 { x: nx, y: ny }
            };
            let point = Vec2 {
                x: coordinate_along(prev.x, p.position.x, t),
                y: coordinate_along(prev.y, p.position.y, t),
            };
            Some(Hit { t, point, normal })
        },
    }
}

fn pick_earlier(best: Option<Hit>, candidate: Option<Hit>) -> (r: Option<Hit>)
    ensures
        r == earlier_hit(best, candidate),
{
    match candidate {
        None => best,
        Some(c) => match best {
            None => candidate,
            Some(b) => if c.t < b.t {
                candidate
            } else {
                best
            },
        },
    }
}

fn reflected_component(v: i64, n: i64, restitution: i64, d: i128) -> (r: i64)
    requires
        in_range(v as int),
        -SCALE <= n <= SCALE,
        0 <= restitution <= SCALE,
        -2_000_000_000_000_000_000 <= d <= 2_000_000_000_000_000_000,
    ensures
        r == clamp(damp(v - n * (SCALE + restitution) * d / (SCALE_CUBED as int))),
        in_range(r as int),
{
    let factor: i128 = product(n, SCALE + restitution);
    proof {
        lemma_product_bound(n as int, SCALE + restitution, 1_000_000, 2_000_000);
        lemma_product_bound(
            factor as int,
            d as int,
            2_000_000_000_000,
            2_000_000_000_000_000_000,
        );
        lemma_floor_div_bound(factor * d, SCALE_CUBED as int);
    }
    let sent_back: i128 = floor_div(factor * d, SCALE_CUBED);
    let reflected: i128 = (v as i128) - sent_back;
    assert(BOUNCE_DAMPING == 995);
    saturate(floor_div(reflected * 995, 1000))
}

fn count_bounce(bounces: u32) -> (r: u32)
    ensures
        r == one_more(bounces),
{
    if bounces < u32::MAX {
        bounces + 1
    } else {
        bounces
    }
}

fn offset_along(point: i64, n: i64) -> (r: i64)
    requires
        in_range(point as int),
        -SCALE <= n <= SCALE,
    ensures
        r == clamp(point + n * SURFACE_OFFSET / (SCALE as int)),
        in_range(r as int),
{
    proof {
        lemma_product_bound(n as int, SURFACE_OFFSET as int, 1_000_000, 50_000);
        lemma_floor_div_bound(n * SURFACE_OFFSET, SCALE as int);
    }
    saturate((point as i128) + floor_div(product(n, SURFACE_OFFSET), SCALE as i128))
}

fn rebound_speed(vy: i64, restitution: i64) -> (r: i64)
    requires
        in_range(vy as int),
        0 <= restitution <= SCALE,
    ensures
        r == abs_int(vy as int) * restitution / (SCALE as int),
        in_range(r as int),
{
    let speed: i64 = if vy >= 0 {
        vy
    } else {
        -vy
    };
    proof {
        lemma_fraction_of_span(speed as int, restitution as int);
    }
    floor_div(product(speed, restitution), SCALE as i128) as i64
}

/// Holds the projectile's travel from `prev` against the bounce surface and
/// bounces it where they met.
pub fn resolve_surface_bounce(projectile: &mut Projectile, surface: BounceSurface, prev: Vec2)
    requires
        old(projectile).wf(),
        surface.wf(),
        prev.wf(),
    ensures
        *final(projectile) == resolve_bounce(*old(projectile), surface, prev),
        final(projectile).wf(),
{
    let edges = bounce_surface_edges(&surface.corners);
    let mut best: Option<Hit> = None;
    let mut i: usize = 0;
    while i < 4
        invariant
            0 <= i <= 4,
            projectile.wf(),
            *projectile == *old(projectile),
            surface.wf(),
            prev.wf(),
            forall|k: int|
                0 <= k < 4 ==> #[trigger] edges@[k] == (
                    surface.corners@[k],
                    surface.corners@[(k + 1) % 4],
                ),
            best == earliest_hit(prev, *projectile, surface.corners@, i as nat),
            best matches Some(h) ==> h.wf(),
        decreases 4 - i,
    {
        let (a, b) = edges[i];
        assert(edges@[i as int] == (surface.corners@[i as int], surface.corners@[(i + 1) % 4]));
        assert(surface.corners@[i as int].wf());
        assert(surface.corners@[(i + 1) % 4].wf());
        let candidate = hit_on_edge(prev, projectile, a, b);
        best = pick_earlier(best, candidate);
        i = i + 1;
    }
    match best {
        Some(hit) => {
            let d: i128 = dot_2d(projectile.velocity, hit.normal);
            proof {
                lemma_product_bound(
                    projectile.velocity.x as int,
                    hit.normal.x as int,
                    1_000_000_000_000,
                    1_000_000,
                );
                lemma_product_bound(
                    projectile.velocity.y as int,
                    hit.normal.y as int,
                    1_000_000_000_000,
                    1_000_000,
                );
            }
            let vx: i64 = reflected_component(
                projectile.velocity.x,
                hit.normal.x,
                surface.restitution,
                d,
            );
            let vy: i64 = reflected_component(
                projectile.velocity.y,
                hit.normal.y,
                surface.restitution,
                d,
            );
            projectile.velocity = Vec2 { x: vx, y: vy };
            projectile.position = Vec2 {
                x: offset_along(hit.point.x, hit.normal.x),
                y: offset_along(hit.point.y, hit.normal.y),
            };
            projectile.bounces = count_bounce(projectile.bounces);
        },
        None => {
            if point_in_polygon(projectile.position, surface.corners.as_slice()) {
                projectile.velocity.y = rebound_speed(projectile.velocity.y, surface.restitution);
                projectile.position.y = saturate((projectile.position.y as i128) + (SURFACE_OFFSET as i128));
                projectile.bounces = count_bounce(projectile.bounces);
            }
        },
    }
}

/// Some barrier holds `point`.
pub open spec fn in_any_barrier(barriers: Seq<Barrier>, point: Vec2) -> bool {
    exists|i: int| 0 <= i < barriers.len() && (#[trigger] barriers[i]).rect.holds(point)
}

/// `point` lies on or within the target's circle.
pub open spec fn in_target(target: Target, point: Vec2) -> bool {
    dot(
        point.x - target.center.x,
        point.y - target.center.y,
        point.x - target.center.x,
        point.y - target.center.y,
    ) <= target.radius * target.radius
}

/// The projectile after `dt` ticks of flight and, where the level has a
/// bounce surface, the bounce off it.
pub open spec fn moved(p: Projectile, level: LevelView, dt: int) -> Projectile {
    let flown = integrate(p, level.environment, dt);
    match level.bounce_surface {
        Some(surface) => resolve_bounce(flown, surface, p.position),
        None => flown,
    }
}

/// What a step that brought the projectile to `p` ends in: a barrier ends
/// the flight whatever else holds; the target counts only with enough
/// bounces; then the ground.
pub open spec fn outcome_at(p: Projectile, level: LevelView) -> StepOutcome {
    if in_any_barrier(level.barriers, p.position) {
        StepOutcome::HitBarrier
    } else if in_target(level.target, p.position) && p.bounces >= level.required_bounces {
        StepOutcome::HitTarget
    } else if p.position.y <= 0 {
        StepOutcome::HitGround
    } else {
        StepOutcome::Flying
    }
}

/// The projectile as a step with `outcome` leaves it: set on the ground
/// where it hit the ground.
pub open spec fn settled(p: Projectile, outcome: StepOutcome) -> Projectile {
    if outcome == StepOutcome::HitGround {
        Projectile {
            position: Vec2 { x: p.position.x, y: 0 },
            velocity: p.velocity,
            elapsed: p.elapsed,
            bounces: p.bounces,
        }
    } else {
        p
    }
}

/// One step of `dt` ticks: the projectile it leaves and its outcome.
pub open spec fn step_spec(p: Projectile, level: LevelView, dt: int) -> (Projectile, StepOutcome) {
    let m = moved(p, level, dt);
    let outcome = outcome_at(m, level);
    (settled(m, outcome), outcome)
}

fn hits_barrier(barriers: &Vec<Barrier>, point: Vec2) -> (hit: bool)
    requires
        forall|i: int| 0 <= i < barriers@.len() ==> (#[trigger] barriers@[i]).rect.wf(),
    ensures
        hit == in_any_barrier(barriers@, point),
{
    let mut i: usize = 0;
    while i < barriers.len()
        invariant
            0 <= i <= barriers@.len(),
            forall|k: int| 0 <= k < barriers@.len() ==> (#[trigger] barriers@[k]).rect.wf(),
            forall|k: int| 0 <= k < i ==> !(#[trigger] barriers@[k]).rect.holds(point),
        decreases barriers@.len() - i,
    {
        if barriers[i].rect.contains(point) {
            return true;
        }
        i = i + 1;
    }
    false
}

fn hits_target(target: &Target, point: Vec2) -> (hit: bool)
    requires
        target.wf(),
        point.wf(),
    ensures
        hit == in_target(*target, point),
{
    let d = Vec2 { x: point.x - target.center.x, y: point.y - target.center.y };
    dot_2d(d, d) <= product(target.radius, target.radius)
}

/// Advances the projectile by `dt` ticks and says what the step ended in.
pub fn step_projectile(projectile: &mut Projectile, level: &Level, dt: u32) -> (outcome:
    StepOutcome)
    requires
        old(projectile).wf(),
        level.wf(),
    ensures
        (*final(projectile), outcome) == step_spec(*old(projectile), level@, dt as int),
        final(projectile).wf(),
        final(projectile).bounces >= old(projectile).bounces,
        outcome == StepOutcome::HitTarget ==> final(projectile).bounces >= level.required_bounces,
        outcome == StepOutcome::HitBarrier <==> in_any_barrier(
            level@.barriers,
            moved(*old(projectile), level@, dt as int).position,
        ),
        outcome == StepOutcome::HitGround ==> final(projectile).position.y == 0,
{
    let prev = projectile.position;
    integrate_step(projectile, level.environment, dt);
    match level.bounce_surface {
        Some(surface) => {
            resolve_surface_bounce(projectile, surface, prev);
        },
        None => {},
    }
    assert forall|i: int| 0 <= i < level.barriers@.len() implies (
    #[trigger] level.barriers@[i]).rect.wf() by {
        assert(level@.barriers[i].rect.wf());
    }
    if hits_barrier(&level.barriers, projectile.position) {
        return StepOutcome::HitBarrier;
    }
    if hits_target(&level.target, projectile.position) && projectile.bounces
        >= level.required_bounces {
        return StepOutcome::HitTarget;
    }
    if projectile.position.y <= 0 {
        projectile.position.y = 0;
        return StepOutcome::HitGround;
    }
    StepOutcome::Flying
}

/// What a run of steps came to: the positions after each step, the
/// projectile after the last, and the last step's outcome.
pub struct FlightEnd {
    pub points: Seq<Vec2>,
    pub last: Projectile,
    pub outcome: StepOutcome,
}

/// The flight of `p` over at most `budget` fixed steps: it ends with the
/// first step that is not `Flying`, or that passes the time limit.
pub open spec fn flight(p: Projectile, level: LevelView, budget: nat) -> FlightEnd
    decreases budget,
{
    if budget == 0 {
        FlightEnd { points: Seq::empty(), last: p, outcome: StepOutcome::Flying }
    } else {
        let (next, outcome) = step_spec(p, level, FIXED_STEP as int);
        if outcome != StepOutcome::Flying || next.elapsed > MAX_SIM_TIME {
            FlightEnd { points: seq![next.position], last: next, outcome }
        } else {
            let rest = flight(next, level, (budget - 1) as nat);
            FlightEnd {
                points: seq![next.position] + rest.points,
                last: rest.last,
                outcome: rest.outcome,
            }
        }
    }
}

/// The flight predicted for a launch with `config` on `level`.
pub open spec fn predict_spec(config: LaunchConfig, level: LevelView) -> PredictionView {
    let start = launch_projectile_spec(config);
    let end = flight(start, level, PREDICTION_STEPS as nat);
    PredictionView {
        points: seq![start.position] + end.points,
        range: if end.last.position.x > 0 {
            end.last.position.x
        } else {
            0
        },
        flight_time: end.last.elapsed,
        bounces: end.last.bounces,
        outcome: end.outcome,
    }
}

/// Simulates the whole flight of a launch with `config` on `level`.
pub fn simulate_prediction(config: LaunchConfig, level: &Level) -> (prediction: Prediction)
    requires
        config.wf(),
        level.wf(),
    ensures
        prediction@ == predict_spec(config, level@),
        prediction@.wf(),
        2 <= prediction.points@.len() <= PREDICTION_STEPS + 1,
{
    let mut projectile = launch_projectile(config);
    let ghost start = projectile;
    let ghost whole = flight(start, level@, PREDICTION_STEPS as nat);
    let mut points: Vec<Vec2> = Vec::new();
    points.push(projectile.position);
    let mut outcome = StepOutcome::Flying;
    let mut done: bool = false;
    let mut i: usize = 0;
    assert(points@.subrange(1, points@.len() as int) + whole.points =~= whole.points);
    while i < PREDICTION_STEPS && !done
        invariant
            0 <= i <= PREDICTION_STEPS,
            projectile.wf(),
            level.wf(),
            points@.len() == i + 1,
            points@[0] == start.position,
            forall|k: int| 0 <= k < points@.len() ==> (#[trigger] points@[k]).wf(),
            whole == flight(start, level@, PREDICTION_STEPS as nat),
            done ==> whole == (FlightEnd {
                points: points@.subrange(1, points@.len() as int),
                last: projectile,
                outcome,
            }),
            !done ==> {
                let rest = flight(projectile, level@, (PREDICTION_STEPS - i) as nat);
                &&& outcome == StepOutcome::Flying
                &&& whole.points == points@.subrange(1, points@.len() as int) + rest.points
                &&& whole.last == rest.last
                &&& whole.outcome == rest.outcome
            },
        decreases PREDICTION_STEPS - i,
    {
        let ghost before = projectile;
        let ghost before_points = points@;
        let ghost rest = flight(before, level@, (PREDICTION_STEPS - i) as nat);
        outcome = step_projectile(&mut projectile, level, FIXED_STEP);
        points.push(projectile.position);
        if outcome != StepOutcome::Flying || projectile.elapsed > MAX_SIM_TIME {
            done = true;
            proof {
                assert(rest.points == seq![projectile.position]);
                assert(points@.subrange(1, points@.len() as int) =~= before_points.subrange(
                    1,
                    before_points.len() as int,
                ) + rest.points);
            }
        } else {
            proof {
                let after = flight(projectile, level@, (PREDICTION_STEPS - i - 1) as nat);
                assert(rest.points == seq![projectile.position] + after.points);
                assert(points@.subrange(1, points@.len() as int) + after.points
                    =~= before_points.subrange(1, before_points.len() as int) + rest.points);
            }
        }
        i = i + 1;
    }
    proof {
        if !done {
            assert(points@.subrange(1, points@.len() as int) + Seq::<Vec2>::empty()
                =~= points@.subrange(1, points@.len() as int));
        }
        assert(points@ =~= seq![start.position] + whole.points);
    }
    let range: i64 = if projectile.position.x > 0 {
        projectile.position.x
    } else {
        0
    };
    Prediction {
        points,
        range,
        flight_time: projectile.elapsed,
        bounces: projectile.bounces,
        outcome,
    }
}

} // verus!
