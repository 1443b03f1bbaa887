//! Closed-form flight over flat ground under Earth gravity, without wind or
//! drag: the position at a time, the time and place of landing, and an even
//! sampling of the path.

use vstd::prelude::*;
use crate::fixed::{
    floor_div, floor_sqrt, in_range, isqrt, lemma_floor_div_bound, lemma_floor_div_monotone,
    lemma_product_bound, product, LIMIT, SCALE, TICKS_PER_SECOND,
};
use crate::geometry::Heading;

verus! {

/// Earth's gravity: 9.8 m/s².
pub const EARTH_GRAVITY: i64 = 9_800_000;

/// Largest time, in ticks, at which a position can be asked for.
pub const MAX_TIME: i64 = 100_000_000_000;

/// Twice the square of the ticks in a second.
pub const TWO_SECONDS_SQUARED: i128 = 115_200_000_000;

/// A launch: the direction as a unit heading, the speed, and the height of
/// the launch point above the ground.
#[derive(Clone, Copy, Debug, PartialEq, Eq, Structural)]
pub struct LaunchInputs {
    pub heading: Heading,
    pub speed: i64,
    pub height: i64,
}

/// Why a launch has no landing.
#[derive(Clone, Copy, Debug, PartialEq, Eq, Structural)]
pub enum BallisticsError {
    /// The speed is negative.
    NegativeSpeed,
    /// The launch point lies so far below ground that the path never
    /// reaches ground level.
    NoRealLandingTime,
    /// The path reaches ground level only before the launch.
    NegativeLandingTime,
}

impl LaunchInputs {
    /// A unit heading, and speed and height within the stored range.
    pub open spec fn wf(self) -> bool {
        &&& self.heading.unit()
        &&& in_range(self.speed as int)
        &&& in_range(self.height as int)
    }

    pub fn is_valid(&self) -> (ok: bool)
        ensures
            ok == self.wf(),
    {
        self.heading.is_unit() && -LIMIT <= self.speed && self.speed <= LIMIT && -LIMIT
            <= self.height && self.height <= LIMIT
    }
}

impl BallisticsError {
    /// The error in words.
    pub fn message(&self) -> (text: String)
        ensures
            text@ == match *self {
                BallisticsError::NegativeSpeed => "Velocity cannot be negative."@,
                BallisticsError::NoRealLandingTime =>
                    "No real landing time: vy^2 + 2*g*h is negative."@,
                BallisticsError::NegativeLandingTime =>
                    "Landing time computed as negative. Check your inputs."@,
            },
    {
        match self {
            BallisticsError::NegativeSpeed => "Velocity cannot be negative.".to_owned(),
            BallisticsError::NoRealLandingTime =>
                "No real landing time: vy^2 + 2*g*h is negative.".to_owned(),
            BallisticsError::NegativeLandingTime =>
                "Landing time computed as negative. Check your inputs.".to_owned(),
        }
    }
}

/// The horizontal and vertical parts of the launch velocity.
pub open spec fn velocity_spec(inputs: LaunchInputs) -> (int, int) {
    (
        inputs.speed * inputs.heading.cos / (SCALE as int),
        inputs.speed * inputs.heading.sin / (SCALE as int),
    )
}

/// The position `time` ticks after the launch.
pub open spec fn trajectory_spec(inputs: LaunchInputs, time: int) -> (int, int) {
    let v = velocity_spec(inputs);
    (
        v.0 * time / (TICKS_PER_SECOND as int),
        inputs.height + v.1 * time / (TICKS_PER_SECOND as int) - EARTH_GRAVITY * time * time / (
        TWO_SECONDS_SQUARED as int),
    )
}

/// What decides whether the path comes down to ground level: the square of
/// the vertical launch speed plus twice gravity times height.
pub open spec fn discriminant(inputs: LaunchInputs) -> int {
    let vy = velocity_spec(inputs).1;
    vy * vy + 2 * EARTH_GRAVITY * inputs.height
}

/// The landing time in ticks, where the discriminant is not negative.
pub open spec fn landing_time(inputs: LaunchInputs) -> int {
    (velocity_spec(inputs).1 + floor_sqrt(discriminant(inputs))) * TICKS_PER_SECOND / (
    EARTH_GRAVITY as int)
}

/// The landing time and the range of a launch, or why it has none.
pub open spec fn flight_spec(inputs: LaunchInputs) -> Result<(int, int), BallisticsError> {
    if inputs.speed < 0 {
        Err(BallisticsError::NegativeSpeed)
    } else if discriminant(inputs) < 0 {
        Err(BallisticsError::NoRealLandingTime)
    } else if landing_time(inputs) < 0 {
        Err(BallisticsError::NegativeLandingTime)
    } else {
        Ok((landing_time(inputs), trajectory_spec(inputs, landing_time(inputs)).0))
    }
}

fn component(speed: i64, part: i64) -> (r: i64)
    requires
        in_range(speed as int),
        -SCALE <= part <= SCALE,
    ensures
        r == speed * part / (SCALE as int),
        in_range(r as int),
{
    proof {
        lemma_product_bound(speed as int, part as int, 1_000_000_000_000, 1_000_000);
        lemma_floor_div_monotone(speed * part, 1_000_000_000_000_000_000, 1_000_000);
        lemma_floor_div_monotone(-1_000_000_000_000_000_000, speed * part, 1_000_000);
    }
    floor_div(product(speed, part), SCALE as i128) as i64
}

/// The horizontal and vertical parts of the launch velocity.
pub fn velocity_components(inputs: LaunchInputs) -> (v: (i64, i64))
    requires
        inputs.wf(),
    ensures
        (v.0 as int, v.1 as int) == velocity_spec(inputs),
        in_range(v.0 as int),
        in_range(v.1 as int),
{
    (component(inputs.speed, inputs.heading.cos), component(inputs.speed, inputs.heading.sin))
}

fn travelled(v: i64, time: i64) -> (r: i128)
    requires
        in_range(v as int),
        -MAX_TIME <= time <= MAX_TIME,
    ensures
        r == v * time / (TICKS_PER_SECOND as int),
        -100_000_000_000_000_000_000_000 <= r <= 100_000_000_000_000_000_000_000,
{
    proof {
        lemma_product_bound(v as int, time as int, 1_000_000_000_000, 100_000_000_000);
        lemma_floor_div_bound(v * time, TICKS_PER_SECOND as int);
    }
    floor_div(product(v, time), TICKS_PER_SECOND as i128)
}

proof fn lemma_position_fits(v: int, time: int)
    by (nonlinear_arith)
    requires
        -1_000_000_000_000 <= v <= 1_000_000_000_000,
        -100_000_000_000 <= time <= 100_000_000_000,
    ensures
        -420_000_000_000_000_000 <= v * time / 240_000 <= 420_000_000_000_000_000,
        0 <= 9_800_000 * time * time / 115_200_000_000 <= 860_000_000_000_000_000,
{
    assert(-100_000_000_000_000_000_000_000 <= v * time <= 100_000_000_000_000_000_000_000);
    assert(0 <= time * time <= 10_000_000_000_000_000_000_000);
    assert(9_800_000 * time * time == 9_800_000 * (time * time));
}

/// The position `time` ticks after the launch.
pub fn trajectory_at_time(inputs: LaunchInputs, time: i64) -> (position: (i64, i64))
    requires
        inputs.wf(),
        -MAX_TIME <= time <= MAX_TIME,
    ensures
        (position.0 as int, position.1 as int) == trajectory_spec(inputs, time as int),
{
    let (vx, vy) = velocity_components(inputs);
    proof {
        lemma_position_fits(vx as int, time as int);
        lemma_position_fits(vy as int, time as int);
        lemma_product_bound(time as int, time as int, 100_000_000_000, 100_000_000_000);
        assert(EARTH_GRAVITY * time * time == 9_800_000 * (time * time)) by (nonlinear_arith)
            requires
                EARTH_GRAVITY == 9_800_000,
        ;
    }
    let x: i128 = travelled(vx, time);
    let rise: i128 = travelled(vy, time);
    let square: i128 = product(time, time);
    let drop: i128 = floor_div((EARTH_GRAVITY as i128) * square, TWO_SECONDS_SQUARED);
    let y: i128 = (inputs.height as i128) + rise - drop;
    (x as i64, y as i64)
}

proof fn lemma_root_bound(n: int, r: int)
    by (nonlinear_arith)
    requires
        0 <= n <= 1_000_020_000_000_000_000_000_000,
        0 <= r,
        r * r <= n,
    ensures
        r <= 1_000_010_000_000,
{
    if r > 1_000_010_000_000 {
        assert(r * r >= 1_000_010_000_001 * 1_000_010_000_001);
    }
}

/// The time of landing, in ticks, and the distance covered by then; or why
/// the launch has no landing.
pub fn flight_time_and_range(inputs: LaunchInputs) -> (landing: Result<(i64, i64), BallisticsError>)
    requires
        inputs.wf(),
    ensures
        match landing {
            Ok((time, range)) => flight_spec(inputs) == Ok::<(int, int), BallisticsError>(
                (time as int, range as int),
            ),
            Err(e) => flight_spec(inputs) == Err::<(int, int), BallisticsError>(e),
        },
        landing matches Ok((time, _)) ==> 0 <= time <= MAX_TIME,
{
    if inputs.speed < 0 {
        return Err(BallisticsError::NegativeSpeed);
    }
    let (_vx, vy) = velocity_components(inputs);
    proof {
        lemma_product_bound(vy as int, vy as int, 1_000_000_000_000, 1_000_000_000_000);
        assert(0 <= vy * vy) by (nonlinear_arith);
    }
    assert(2 * EARTH_GRAVITY * inputs.height == 19_600_000 * inputs.height) by (nonlinear_arith)
        requires
            EARTH_GRAVITY == 9_800_000,
    ;
    let disc: i128 = product(vy, vy) + 19_600_000 * (inputs.height as i128);
    if disc < 0 {
        return Err(BallisticsError::NoRealLandingTime);
    }
    let root: u128 = isqrt(disc as u128);
    proof {
        lemma_root_bound(disc as int, root as int);
    }
    let reach: i128 = (vy as i128) + (root as i128);
    let time: i128 = floor_div(reach * (TICKS_PER_SECOND as i128), EARTH_GRAVITY as i128);
    proof {
        lemma_floor_div_monotone(reach * TICKS_PER_SECOND, 480_002_400_000_000_000, 9_800_000);
    }
    if time < 0 {
        return Err(BallisticsError::NegativeLandingTime);
    }
    let (range, _y) = trajectory_at_time(inputs, time as i64);
    Ok((time as i64, range))
}

/// The time of sample `i` out of `count`, over a flight of `time_of_flight`
/// ticks.
pub open spec fn sample_time(i: int, time_of_flight: int, count: int) -> int {
    i * time_of_flight / count
}

/// How many intervals a sampling has: as many as asked for, and at least
/// two.
pub open spec fn sample_count(samples: usize) -> int {
    if samples >= 2 {
        samples as int
    } else {
        2
    }
}

proof fn lemma_sample_time_range(i: int, time: int, count: int)
    by (nonlinear_arith)
    requires
        0 <= i <= count,
        count >= 1,
    ensures
        time >= 0 ==> 0 <= i * time / count <= time,
        time < 0 ==> time <= i * time / count <= 0,
{
    if time >= 0 {
        assert(0 <= i * time <= count * time);
    } else {
        assert(count * time <= i * time <= 0);
    }
}

/// The path sampled at evenly spaced times from the launch to
/// `time_of_flight`, both ends included.
pub fn sample_trajectory(inputs: LaunchInputs, time_of_flight: i64, samples: usize) -> (points:
    Vec<(i64, i64)>)
    requires
        inputs.wf(),
        -MAX_TIME <= time_of_flight <= MAX_TIME,
        samples < usize::MAX,
    ensures
        points@.len() == sample_count(samples) + 1,
        forall|i: int|
            0 <= i < points@.len() ==> ((#[trigger] points@[i]).0 as int, points@[i].1 as int)
                == trajectory_spec(
                inputs,
                sample_time(i, time_of_flight as int, sample_count(samples)),
            ),
{
    let count: usize = if samples >= 2 {
        samples
    } else {
        2
    };
    let mut points: Vec<(i64, i64)> = Vec::new();
    let mut i: usize = 0;
    while i <= count
        invariant
            0 <= i <= count + 1,
            count == sample_count(samples),
            count < usize::MAX,
            inputs.wf(),
            -MAX_TIME <= time_of_flight <= MAX_TIME,
            points@.len() == i,
            forall|k: int|
                0 <= k < i ==> ((#[trigger] points@[k]).0 as int, points@[k].1 as int)
                    == trajectory_spec(
                    inputs,
                    sample_time(k, time_of_flight as int, count as int),
                ),
        decreases count + 1 - i,
    {
        proof {
            lemma_sample_time_range(i as int, time_of_flight as int, count as int);
            lemma_product_bound(
                i as int,
                time_of_flight as int,
                0x1_0000_0000_0000_0000,
                100_000_000_000,
            );
        }
        let t: i128 = floor_div((i as i128) * (time_of_flight as i128), count as i128);
        let point = trajectory_at_time(inputs, t as i64);
        points.push(point);
        i = i + 1;
    }
    points
}

} // verus!
