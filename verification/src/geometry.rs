//! Plane geometry on fixed-point coordinates: vectors, segment crossing,
//! point-in-polygon, and the axis-aligned rectangle of a barrier.
//!
//! All tests here are exact: a crossing or a containment is decided on the
//! integer cross products themselves, and only the fractions handed back are
//! rounded (down) to the fixed-point scale.

use vstd::prelude::*;
use crate::fixed::{
    abs_int, clamp, floor_div, in_range, lemma_product_bound, product, saturate, LIMIT, SCALE,
};

verus! {

/// Cross products smaller than this (one millionth of a square metre) mark
/// two segments as parallel.
pub const PARALLEL_EPS: i128 = 1_000_000;

/// How far the squared length of a unit heading may lie from `SCALE`
/// squared, to allow for the rounding of its two components.
pub const UNIT_TOLERANCE: i64 = 2_000_000;

/// Bound on the cross or dot product of two differences of stored points.
pub const CROSS_LIMIT: i128 = 8_000_000_000_000_000_000_000_000;

/// A point or a displacement in the plane.
#[derive(Clone, Copy, Debug, PartialEq, Eq, Structural)]
pub struct Vec2 {
    pub x: i64,
    pub y: i64,
}

/// A direction given by its cosine and sine, each scaled by `SCALE`.
#[derive(Clone, Copy, Debug, PartialEq, Eq, Structural)]
pub struct Heading {
    pub cos: i64,
    pub sin: i64,
}

/// An axis-aligned rectangle: a corner and its extent along each axis.
#[derive(Clone, Copy, Debug, PartialEq, Eq, Structural)]
pub struct Rect {
    pub x: i64,
    pub y: i64,
    pub w: i64,
    pub h: i64,
}

impl Vec2 {
    /// Both coordinates lie within the stored range.
    pub open spec fn wf(self) -> bool {
        in_range(self.x as int) && in_range(self.y as int)
    }

    pub fn new(x: i64, y: i64) -> (v: Vec2)
        ensures
            v.x == x,
            v.y == y,
    {
        Vec2 { x, y }
    }

    /// Whether both coordinates lie within the stored range.
    pub fn is_valid(&self) -> (ok: bool)
        ensures
            ok == self.wf(),
    {
        -LIMIT <= self.x && self.x <= LIMIT && -LIMIT <= self.y && self.y <= LIMIT
    }
}

impl Heading {
    /// Neither component exceeds one in magnitude.
    pub open spec fn wf(self) -> bool {
        -SCALE <= self.cos <= SCALE && -SCALE <= self.sin <= SCALE
    }

    /// The heading has length one, up to the rounding of its components.
    pub open spec fn unit(self) -> bool {
        &&& self.wf()
        &&& SCALE * SCALE - UNIT_TOLERANCE <= self.cos * self.cos + self.sin * self.sin <= SCALE
            * SCALE + UNIT_TOLERANCE
    }

    pub fn is_valid(&self) -> (ok: bool)
        ensures
            ok == self.wf(),
    {
        -SCALE <= self.cos && self.cos <= SCALE && -SCALE <= self.sin && self.sin <= SCALE
    }

    /// Whether the heading has length one, up to rounding.
    pub fn is_unit(&self) -> (ok: bool)
        ensures
            ok == self.unit(),
    {
        if !self.is_valid() {
            return false;
        }
        proof {
            lemma_product_bound(self.cos as int, self.cos as int, 1_000_000, 1_000_000);
            lemma_product_bound(self.sin as int, self.sin as int, 1_000_000, 1_000_000);
            assert(SCALE * SCALE == 1_000_000_000_000) by (nonlinear_arith)
                requires
                    SCALE == 1_000_000,
            ;
        }
        let square: i128 = product(self.cos, self.cos) + product(self.sin, self.sin);
        1_000_000_000_000 - (UNIT_TOLERANCE as i128) <= square && square <= 1_000_000_000_000 + (
        UNIT_TOLERANCE as i128)
    }
}

impl Rect {
    /// Corner and extents lie within the stored range.
    pub open spec fn wf(self) -> bool {
        in_range(self.x as int) && in_range(self.y as int) && in_range(self.w as int) && in_range(
            self.h as int,
        )
    }

    /// The rectangle holds `point`, its border included.
    pub open spec fn holds(self, point: Vec2) -> bool {
        &&& point.x >= self.x
        &&& point.x <= self.x + self.w
        &&& point.y <= self.y + self.h
        &&& point.y >= self.y
    }

    pub fn is_valid(&self) -> (ok: bool)
        ensures
            ok == self.wf(),
    {
        -LIMIT <= self.x && self.x <= LIMIT && -LIMIT <= self.y && self.y <= LIMIT && -LIMIT
            <= self.w && self.w <= LIMIT && -LIMIT <= self.h && self.h <= LIMIT
    }

    /// Whether the rectangle holds `point`, its border included.
    pub fn contains(&self, point: Vec2) -> (inside: bool)
        requires
            self.wf(),
        ensures
            inside == self.holds(point),
    {
        point.x >= self.x && point.x <= self.x + self.w && point.y <= self.y + self.h && point.y
            >= self.y
    }
}

/// The cross product of `(ax, ay)` and `(bx, by)`.
pub open spec fn cross(ax: int, ay: int, bx: int, by: int) -> int {
    ax * by - ay * bx
}

/// The dot product of `(ax, ay)` and `(bx, by)`.
pub open spec fn dot(ax: int, ay: int, bx: int, by: int) -> int {
    ax * bx + ay * by
}

/// The cross product of two displacements.
pub fn cross_2d(a: Vec2, b: Vec2) -> (r: i128)
    requires
        -2 * LIMIT <= a.x <= 2 * LIMIT,
        -2 * LIMIT <= a.y <= 2 * LIMIT,
        -2 * LIMIT <= b.x <= 2 * LIMIT,
        -2 * LIMIT <= b.y <= 2 * LIMIT,
    ensures
        r == cross(a.x as int, a.y as int, b.x as int, b.y as int),
        -CROSS_LIMIT <= r <= CROSS_LIMIT,
{
    proof {
        lemma_product_bound(a.x as int, b.y as int, 2_000_000_000_000, 2_000_000_000_000);
        lemma_product_bound(a.y as int, b.x as int, 2_000_000_000_000, 2_000_000_000_000);
    }
    product(a.x, b.y) - product(a.y, b.x)
}

/// The dot product of two displacements.
pub fn dot_2d(a: Vec2, b: Vec2) -> (r: i128)
    requires
        -2 * LIMIT <= a.x <= 2 * LIMIT,
        -2 * LIMIT <= a.y <= 2 * LIMIT,
        -2 * LIMIT <= b.x <= 2 * LIMIT,
        -2 * LIMIT <= b.y <= 2 * LIMIT,
    ensures
        r == dot(a.x as int, a.y as int, b.x as int, b.y as int),
        -CROSS_LIMIT <= r <= CROSS_LIMIT,
{
    proof {
        lemma_product_bound(a.x as int, b.x as int, 2_000_000_000_000, 2_000_000_000_000);
        lemma_product_bound(a.y as int, b.y as int, 2_000_000_000_000, 2_000_000_000_000);
    }
    product(a.x, b.x) + product(a.y, b.y)
}

/// The ratio `n / d` lies in the closed unit interval.
pub open spec fn within_unit(n: int, d: int) -> bool {
    if d > 0 {
        0 <= n <= d
    } else {
        d <= n <= 0
    }
}

/// The ratio `n / d` of two integers of equal sign, in fixed point, rounded
/// down.
pub open spec fn unit_fraction(n: int, d: int) -> int {
    abs_int(n) * SCALE / abs_int(d)
}

/// The cross product of the two segments' directions.
pub open spec fn directions_cross(p: Vec2, p_end: Vec2, q: Vec2, q_end: Vec2) -> int {
    cross(p_end.x - p.x, p_end.y - p.y, q_end.x - q.x, q_end.y - q.y)
}

/// Numerator of the crossing's position along `p..p_end`.
pub open spec fn travel_numerator(p: Vec2, q: Vec2, q_end: Vec2) -> int {
    cross(q.x - p.x, q.y - p.y, q_end.x - q.x, q_end.y - q.y)
}

/// Numerator of the crossing's position along `q..q_end`.
pub open spec fn edge_numerator(p: Vec2, p_end: Vec2, q: Vec2) -> int {
    cross(q.x - p.x, q.y - p.y, p_end.x - p.x, p_end.y - p.y)
}

/// The segments `p..p_end` and `q..q_end` are not parallel and meet, ends included.
pub open spec fn segments_cross(p: Vec2, p_end: Vec2, q: Vec2, q_end: Vec2) -> bool {
    let d = directions_cross(p, p_end, q, q_end);
    &&& abs_int(d) >= PARALLEL_EPS
    &&& within_unit(travel_numerator(p, q, q_end), d)
    &&& within_unit(edge_numerator(p, p_end, q), d)
}

/// Where along `p..p_end` the segments meet, as a fraction of `SCALE`.
pub open spec fn travel_fraction(p: Vec2, p_end: Vec2, q: Vec2, q_end: Vec2) -> int {
    unit_fraction(travel_numerator(p, q, q_end), directions_cross(p, p_end, q, q_end))
}

/// Where along `q..q_end` the segments meet, as a fraction of `SCALE`.
pub open spec fn edge_fraction(p: Vec2, p_end: Vec2, q: Vec2, q_end: Vec2) -> int {
    unit_fraction(edge_numerator(p, p_end, q), directions_cross(p, p_end, q, q_end))
}

/// A fraction of two integers of equal sign, the first no larger in
/// magnitude, lies between zero and one.
pub proof fn lemma_unit_fraction_range(n: int, d: int)
    by (nonlinear_arith)
    requires
        d != 0,
        within_unit(n, d),
    ensures
        0 <= unit_fraction(n, d) <= SCALE,
{
}

fn fraction_of(n: i128, d: i128) -> (f: i64)
    requires
        d != 0,
        within_unit(n as int, d as int),
        -CROSS_LIMIT <= d <= CROSS_LIMIT,
    ensures
        f == unit_fraction(n as int, d as int),
        0 <= f <= SCALE,
{
    let an: i128 = if n >= 0 {
        n
    } else {
        -n
    };
    let ad: i128 = if d >= 0 {
        d
    } else {
        -d
    };
    proof {
        lemma_unit_fraction_range(n as int, d as int);
    }
    let q: i128 = floor_div(an * (SCALE as i128), ad);
    q as i64
}

/// Where two segments meet: the position along each as a fraction of
/// `SCALE`, or `None` when they are parallel or miss each other.
pub fn segment_intersection(p: Vec2, p_end: Vec2, q: Vec2, q_end: Vec2) -> (hit: Option<(i64, i64)>)
    requires
        p.wf(),
        p_end.wf(),
        q.wf(),
        q_end.wf(),
    ensures
        hit.is_some() == segments_cross(p, p_end, q, q_end),
        hit matches Some((t, u)) ==> {
            &&& t == travel_fraction(p, p_end, q, q_end)
            &&& u == edge_fraction(p, p_end, q, q_end)
            &&& 0 <= t <= SCALE
            &&& 0 <= u <= SCALE
        },
{
    let r = Vec2 { x: p_end.x - p.x, y: p_end.y - p.y };
    let s = Vec2 { x: q_end.x - q.x, y: q_end.y - q.y };
    let qmp = Vec2 { x: q.x - p.x, y: q.y - p.y };
    let rxs: i128 = cross_2d(r, s);
    if -PARALLEL_EPS < rxs && rxs < PARALLEL_EPS {
        return None;
    }
    let tn: i128 = cross_2d(qmp, s);
    let un: i128 = cross_2d(qmp, r);
    let t_ok: bool = if rxs > 0 {
        0 <= tn && tn <= rxs
    } else {
        rxs <= tn && tn <= 0
    };
    let u_ok: bool = if rxs > 0 {
        0 <= un && un <= rxs
    } else {
        rxs <= un && un <= 0
    };
    if t_ok && u_ok {
        Some((fraction_of(tn, rxs), fraction_of(un, rxs)))
    } else {
        None
    }
}

/// The corner before corner `i` in a polygon of `len` corners.
pub open spec fn previous_corner(i: int, len: int) -> int {
    if i == 0 {
        len - 1
    } else {
        i - 1
    }
}

/// The ray from `point` toward larger `x` passes through the edge `a..b`.
pub open spec fn ray_meets_edge(point: Vec2, a: Vec2, b: Vec2) -> bool {
    let rise = b.y - a.y;
    let lhs = (point.x - a.x) * rise;
    let rhs = (b.x - a.x) * (point.y - a.y);
    &&& (a.y > point.y) != (b.y > point.y)
    &&& if rise > 0 {
        lhs < rhs
    } else {
        lhs > rhs
    }
}

/// How many of the polygon's first `n` edges the ray from `point` passes
/// through; edge `i` runs from corner `i` back to the corner before it.
pub open spec fn ray_crossings(point: Vec2, polygon: Seq<Vec2>, n: nat) -> nat
    decreases n,
{
    if n == 0 {
        0
    } else {
        let i = (n - 1) as int;
        let rest = ray_crossings(point, polygon, (n - 1) as nat);
        if ray_meets_edge(point, polygon[i], polygon[previous_corner(i, polygon.len() as int)]) {
            rest + 1
        } else {
            rest
        }
    }
}

/// `point` lies inside `polygon` by the even-odd rule; fewer than three
/// corners enclose nothing.
pub open spec fn inside_polygon(point: Vec2, polygon: Seq<Vec2>) -> bool {
    polygon.len() >= 3 && ray_crossings(point, polygon, polygon.len()) % 2 == 1
}

fn ray_meets(point: Vec2, a: Vec2, b: Vec2) -> (meets: bool)
    requires
        point.wf(),
        a.wf(),
        b.wf(),
    ensures
        meets == ray_meets_edge(point, a, b),
{
    if (a.y > point.y) == (b.y > point.y) {
        return false;
    }
    let rise: i64 = b.y - a.y;
    let lhs: i128 = product(point.x - a.x, rise);
    let rhs: i128 = product(b.x - a.x, point.y - a.y);
    if rise > 0 {
        lhs < rhs
    } else {
        lhs > rhs
    }
}

/// Whether `point` lies inside `polygon` by the even-odd rule.
pub fn point_in_polygon(point: Vec2, polygon: &[Vec2]) -> (inside: bool)
    requires
        point.wf(),
        forall|i: int| 0 <= i < polygon@.len() ==> (#[trigger] polygon@[i]).wf(),
    ensures
        inside == inside_polygon(point, polygon@),
{
    let len: usize = polygon.len();
    if len < 3 {
        return false;
    }
    let mut inside: bool = false;
    let mut j: usize = len - 1;
    let mut i: usize = 0;
    while i < len
        invariant
            len == polygon@.len(),
            len >= 3,
            0 <= i <= len,
            j == previous_corner(i as int, len as int) || i == len,
            point.wf(),
            forall|k: int| 0 <= k < polygon@.len() ==> (#[trigger] polygon@[k]).wf(),
            inside == (ray_crossings(point, polygon@, i as nat) % 2 == 1),
        decreases len - i,
    {
        let pi: Vec2 = polygon[i];
        let pj: Vec2 = polygon[j];
        if ray_meets(point, pi, pj) {
            inside = !inside;
        }
        j = i;
        i = i + 1;
    }
    inside
}

/// The four edges of a quadrilateral, in corner order and wrapping.
pub fn bounce_surface_edges(corners: &[Vec2; 4]) -> (edges: [(Vec2, Vec2); 4])
    ensures
        forall|i: int|
            0 <= i < 4 ==> #[trigger] edges@[i] == (corners@[i], corners@[(i + 1) % 4]),
{
    [
        (corners[0], corners[1]),
        (corners[1], corners[2]),
        (corners[2], corners[3]),
        (corners[3], corners[0]),
    ]
}

/// The mean of four corners, each coordinate rounded down.
pub open spec fn quad_center_spec(corners: Seq<Vec2>) -> Vec2 {
    Vec2 {
        x: ((corners[0].x + corners[1].x + corners[2].x + corners[3].x) / 4) as i64,
        y: ((corners[0].y + corners[1].y + corners[2].y + corners[3].y) / 4) as i64,
    }
}

/// The centroid of a quadrilateral's corners.
pub fn quad_center(corners: &[Vec2; 4]) -> (center: Vec2)
    requires
        forall|i: int| 0 <= i < 4 ==> (#[trigger] corners@[i]).wf(),
    ensures
        center == quad_center_spec(corners@),
        center.wf(),
{
    assert(corners@[0].wf() && corners@[1].wf() && corners@[2].wf() && corners@[3].wf());
    let sx: i128 = (corners[0].x as i128) + (corners[1].x as i128) + (corners[2].x as i128) + (
    corners[3].x as i128);
    let sy: i128 = (corners[0].y as i128) + (corners[1].y as i128) + (corners[2].y as i128) + (
    corners[3].y as i128);
    Vec2 { x: floor_div(sx, 4) as i64, y: floor_div(sy, 4) as i64 }
}

/// `v` turned by `rotation`, each coordinate rounded down and kept within
/// the stored range.
pub open spec fn rotate_vec_spec(v: Vec2, rotation: Heading) -> Vec2 {
    Vec2 {
        x: clamp((v.x * rotation.cos - v.y * rotation.sin) / (SCALE as int)) as i64,
        y: clamp((v.x * rotation.sin + v.y * rotation.cos) / (SCALE as int)) as i64,
    }
}

/// Turns a displacement by a rotation given as cosine and sine.
pub fn rotate_vec(v: Vec2, rotation: Heading) -> (turned: Vec2)
    requires
        v.wf(),
        rotation.wf(),
    ensures
        turned == rotate_vec_spec(v, rotation),
        turned.wf(),
{
    proof {
        lemma_product_bound(v.x as int, rotation.cos as int, 1_000_000_000_000, 1_000_000);
        lemma_product_bound(v.y as int, rotation.sin as int, 1_000_000_000_000, 1_000_000);
        lemma_product_bound(v.x as int, rotation.sin as int, 1_000_000_000_000, 1_000_000);
        lemma_product_bound(v.y as int, rotation.cos as int, 1_000_000_000_000, 1_000_000);
    }
    let x: i128 = floor_div(product(v.x, rotation.cos) - product(v.y, rotation.sin), SCALE as i128);
    let y: i128 = floor_div(product(v.x, rotation.sin) + product(v.y, rotation.cos), SCALE as i128);
    Vec2 { x: saturate(x), y: saturate(y) }
}

} // verus!
