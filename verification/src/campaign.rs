//! The campaign: four levels on Earth, with drag and a wind drawn afresh for
//! each, followed by four on the Moon.

use vstd::prelude::*;
use crate::ballistics::EARTH_GRAVITY;
use crate::fixed::{abs_int, in_range};
use crate::geometry::{Heading, Rect, Vec2};
use crate::model::{
    Barrier, BounceSurface, Environment, LaunchConfig, Level, LevelView, Target,
};

verus! {

/// Levels on Earth.
pub const EARTH_LEVELS: usize = 4;

/// Levels on the Moon.
pub const MOON_LEVELS: usize = 4;

/// Linear drag on Earth: 0.015 per second.
pub const EARTH_DRAG: i64 = 15_000;

/// The Moon's gravity: 1.62 m/s².
pub const MOON_GRAVITY: i64 = 1_620_000;

/// Smallest wind on Earth, in either direction: 0.2 m/s².
pub const MIN_WIND: i32 = 200_000;

/// Bound that the wind on Earth stays under, in either direction:
/// 0.8 m/s².
pub const MAX_WIND: i32 = 800_000;

/// Trusted: `macroquad::rand::gen_range` on two `i32` bounds. For bounds
/// that are not negative and at most a million, the number drawn is at
/// least `low` and less than `high`: the crate scales a 32-bit draw into
/// the interval in double precision, which is exact for such bounds, and
/// cuts the fraction off. Which number is drawn depends on the state of the
/// crate's generator, of which nothing is claimed.
#[verifier::external_body]
fn draw_between(low: i32, high: i32) -> (drawn: i32)
    requires
        0 <= low < high <= 1_000_000,
    ensures
        low <= drawn < high,
{
    macroquad::rand::gen_range(low, high)
}

/// The wind for a drawn magnitude and a drawn side: against the shot for
/// side 0, with it otherwise.
pub open spec fn wind_spec(magnitude: i32, side: i32) -> i64 {
    if side == 0 {
        (-magnitude) as i64
    } else {
        magnitude as i64
    }
}

/// The wind for a drawn magnitude and a drawn side.
pub fn wind_from_draws(magnitude: i32, side: i32) -> (wind: i64)
    requires
        magnitude >= 0,
    ensures
        wind == wind_spec(magnitude, side),
        abs_int(wind as int) == magnitude,
{
    if side == 0 {
        -(magnitude as i64)
    } else {
        magnitude as i64
    }
}

/// A wind that may blow on Earth.
pub open spec fn earth_wind(wind: i64) -> bool {
    MIN_WIND <= abs_int(wind as int) < MAX_WIND
}

/// A target of radius `radius` around `(x, y)`.
pub open spec fn target_at(x: i64, y: i64, radius: i64) -> Target {
    Target { center: Vec2 { x, y }, radius }
}

/// A launch along `(cos, sin)` at `speed` from `height`.
pub open spec fn launch_along(cos: i64, sin: i64, speed: i64, height: i64) -> LaunchConfig {
    LaunchConfig { heading: Heading { cos, sin }, speed, height }
}

/// A barrier from `(x, y)`, `w` wide and `h` high.
pub open spec fn wall(x: i64, y: i64, w: i64, h: i64) -> Barrier {
    Barrier { rect: Rect { x, y, w, h } }
}

/// `surface` is the level slab between `left` and `right`, `bottom` and
/// `top`, with its corners in the order top left, top right, bottom right,
/// bottom left.
pub open spec fn is_slab(
    surface: Option<BounceSurface>,
    left: i64,
    right: i64,
    top: i64,
    bottom: i64,
    restitution: i64,
) -> bool {
    &&& surface matches Some(s)
    &&& s.corners@ == seq![
        Vec2 { x: left, y: top },
        Vec2 { x: right, y: top },
        Vec2 { x: right, y: bottom },
        Vec2 { x: left, y: bottom },
    ]
    &&& s.restitution == restitution
}

/// Earth under `wind`.
pub open spec fn earth(wind: i64) -> Environment {
    Environment {
        name: "Earth",
        gravity: EARTH_GRAVITY,
        wind_accel_x: wind,
        drag_linear: EARTH_DRAG,
    }
}

/// The Moon: no wind, no drag.
pub open spec fn moon() -> Environment {
    Environment { name: "Moon", gravity: MOON_GRAVITY, wind_accel_x: 0, drag_linear: 0 }
}

/// `level` is level `index` (from 0) on Earth under `wind`.
pub open spec fn is_earth_level(level: LevelView, index: int, wind: i64) -> bool {
    &&& level.environment == earth(wind)
    &&& level.level_in_environment == index + 1
    &&& if index == 0 {
        &&& level.code == "EARTH 1"
        &&& level.title == "Direct Shot"
        &&& level.target == target_at(165_000_000, 28_000_000, 12_000_000)
        &&& level.bounce_surface is None
        &&& level.barriers == Seq::<Barrier>::empty()
        &&& level.required_bounces == 0
        &&& level.default_launch == launch_along(829_038, 559_193, 56_000_000, 2_000_000)
    } else if index == 1 {
        &&& level.code == "EARTH 2"
        &&& level.title == "Single Bounce"
        &&& level.target == target_at(208_000_000, 36_000_000, 12_000_000)
        &&& is_slab(
            level.bounce_surface,
            86_000_000,
            146_000_000,
            19_000_000,
            13_000_000,
            820_000,
        )
        &&& level.barriers == Seq::<Barrier>::empty()
        &&& level.required_bounces == 1
        &&& level.default_launch == launch_along(857_167, 515_038, 58_000_000, 2_000_000)
    } else if index == 2 {
        &&& level.code == "EARTH 3"
        &&& level.title == "Thread The Gap"
        &&& level.target == target_at(230_000_000, 34_000_000, 12_000_000)
        &&& level.bounce_surface is None
        &&& level.barriers == seq![
            wall(133_000_000, 0, 9_000_000, 24_000_000),
            wall(133_000_000, 58_000_000, 9_000_000, 42_000_000),
        ]
        &&& level.required_bounces == 0
        &&& level.default_launch == launch_along(866_025, 500_000, 64_000_000, 2_500_000)
    } else {
        &&& level.code == "EARTH 4"
        &&& level.title == "Bank Shot Through Gap"
        &&& level.target == target_at(280_000_000, 36_000_000, 12_000_000)
        &&& is_slab(
            level.bounce_surface,
            120_000_000,
            188_000_000,
            22_000_000,
            15_000_000,
            800_000,
        )
        &&& level.barriers == seq![
            wall(208_000_000, 0, 10_000_000, 28_000_000),
            wall(208_000_000, 62_000_000, 10_000_000, 38_000_000),
        ]
        &&& level.required_bounces == 1
        &&& level.default_launch == launch_along(838_671, 544_639, 67_000_000, 3_000_000)
    }
}

/// `level` is level `index` (from 0) on the Moon.
pub open spec fn is_moon_level(level: LevelView, index: int) -> bool {
    &&& level.environment == moon()
    &&& level.level_in_environment == index + 1
    &&& if index == 0 {
        &&& level.code == "MOON 1"
        &&& level.title == "Direct Shot"
        &&& level.target == target_at(700_000_000, 130_000_000, 30_000_000)
        &&& level.bounce_surface is None
        &&& level.barriers == Seq::<Barrier>::empty()
        &&& level.required_bounces == 0
        &&& level.default_launch == launch_along(951_057, 309_017, 90_000_000, 20_000_000)
    } else if index == 1 {
        &&& level.code == "MOON 2"
        &&& level.title == "Bounce Into Target"
        &&& level.target == target_at(980_000_000, 190_000_000, 35_000_000)
        &&& is_slab(
            level.bounce_surface,
            380_000_000,
            690_000_000,
            95_000_000,
            75_000_000,
            900_000,
        )
        &&& level.barriers == Seq::<Barrier>::empty()
        &&& level.required_bounces == 1
        &&& level.default_launch == launch_along(882_948, 469_472, 145_000_000, 22_000_000)
    } else if index == 2 {
        &&& level.code == "MOON 3"
        &&& level.title == "Thread The Gap"
        &&& level.target == target_at(980_000_000, 190_000_000, 32_000_000)
        &&& level.bounce_surface is None
        &&& level.barriers == seq![
            wall(560_000_000, 0, 38_000_000, 230_000_000),
            wall(560_000_000, 310_000_000, 38_000_000, 260_000_000),
        ]
        &&& level.required_bounces == 0
        &&& level.default_launch == launch_along(939_693, 342_020, 145_000_000, 24_000_000)
    } else {
        &&& level.code == "MOON 4"
        &&& level.title == "Bank Shot Through Gap"
        &&& level.target == target_at(1_110_000_000, 220_000_000, 32_000_000)
        &&& is_slab(
            level.bounce_surface,
            420_000_000,
            710_000_000,
            106_000_000,
            84_000_000,
            880_000,
        )
        &&& level.barriers == seq![
            wall(790_000_000, 0, 36_000_000, 250_000_000),
            wall(790_000_000, 340_000_000, 36_000_000, 260_000_000),
        ]
        &&& level.required_bounces == 1
        &&& level.default_launch == launch_along(913_545, 406_737, 170_000_000, 30_000_000)
    }
}

fn target(x: i64, y: i64, radius: i64) -> (t: Target)
    ensures
        t == target_at(x, y, radius),
{
    Target { center: Vec2 { x, y }, radius }
}

fn launch(cos: i64, sin: i64, speed: i64, height: i64) -> (config: LaunchConfig)
    ensures
        config == launch_along(cos, sin, speed, height),
{
    LaunchConfig { heading: Heading { cos, sin }, speed, height }
}

fn barrier(x: i64, y: i64, w: i64, h: i64) -> (b: Barrier)
    ensures
        b == wall(x, y, w, h),
{
    Barrier { rect: Rect { x, y, w, h } }
}

fn slab(left: i64, right: i64, top: i64, bottom: i64, restitution: i64) -> (surface: Option<
    BounceSurface,
>)
    ensures
        is_slab(surface, left, right, top, bottom, restitution),
{
    let corners = [
        Vec2 { x: left, y: top },
        Vec2 { x: right, y: top },
        Vec2 { x: right, y: bottom },
        Vec2 { x: left, y: bottom },
    ];
    assert(corners@ =~= seq![
        Vec2 { x: left, y: top },
        Vec2 { x: right, y: top },
        Vec2 { x: right, y: bottom },
        Vec2 { x: left, y: bottom },
    ]);
    Some(BounceSurface { corners, restitution })
}

fn gap(first: Barrier, second: Barrier) -> (barriers: Vec<Barrier>)
    ensures
        barriers@ == seq![first, second],
{
    let mut barriers: Vec<Barrier> = Vec::new();
    barriers.push(first);
    barriers.push(second);
    assert(barriers@ =~= seq![first, second]);
    barriers
}

fn open_field() -> (barriers: Vec<Barrier>)
    ensures
        barriers@ == Seq::<Barrier>::empty(),
{
    let barriers: Vec<Barrier> = Vec::new();
    assert(barriers@ =~= Seq::<Barrier>::empty());
    barriers
}

impl Level {
    /// The whole campaign: Earth first, then the Moon.
    pub fn campaign() -> (levels: Vec<Level>)
        ensures
            levels@.len() == EARTH_LEVELS + MOON_LEVELS,
            forall|i: int|
                0 <= i < EARTH_LEVELS ==> is_earth_level(
                    (#[trigger] levels@[i])@,
                    i,
                    levels@[i].environment.wind_accel_x,
                ) && earth_wind(levels@[i].environment.wind_accel_x),
            forall|i: int|
                EARTH_LEVELS <= i < EARTH_LEVELS + MOON_LEVELS ==> is_moon_level(
                    (#[trigger] levels@[i])@,
                    i - EARTH_LEVELS,
                ),
            forall|i: int| 0 <= i < levels@.len() ==> (#[trigger] levels@[i]).wf(),
    {
        let mut levels = Self::earth_campaign();
        let mut moon = Self::moon_campaign();
        levels.append(&mut moon);
        levels
    }

    /// A wind for one level on Earth: a magnitude drawn between the two
    /// bounds, blowing to a side drawn with it.
    pub fn random_earth_wind() -> (wind: i64)
        ensures
            earth_wind(wind),
    {
        let magnitude: i32 = draw_between(MIN_WIND, MAX_WIND);
        let side: i32 = draw_between(0, 2);
        wind_from_draws(magnitude, side)
    }

    /// The four levels on Earth, each under a wind of its own.
    pub fn earth_campaign() -> (levels: Vec<Level>)
        ensures
            levels@.len() == EARTH_LEVELS,
            forall|i: int|
                0 <= i < EARTH_LEVELS ==> is_earth_level(
                    (#[trigger] levels@[i])@,
                    i,
                    levels@[i].environment.wind_accel_x,
                ) && earth_wind(levels@[i].environment.wind_accel_x),
            forall|i: int| 0 <= i < levels@.len() ==> (#[trigger] levels@[i]).wf(),
    {
        let w0: i64 = Self::random_earth_wind();
        let w1: i64 = Self::random_earth_wind();
        let w2: i64 = Self::random_earth_wind();
        let w3: i64 = Self::random_earth_wind();
        Self::earth_campaign_under(w0, w1, w2, w3)
    }

    /// The four levels on Earth under the four winds given.
    pub fn earth_campaign_under(w0: i64, w1: i64, w2: i64, w3: i64) -> (levels: Vec<Level>)
        requires
            in_range(w0 as int),
            in_range(w1 as int),
            in_range(w2 as int),
            in_range(w3 as int),
        ensures
            levels@.len() == EARTH_LEVELS,
            is_earth_level(levels@[0]@, 0, w0),
            is_earth_level(levels@[1]@, 1, w1),
            is_earth_level(levels@[2]@, 2, w2),
            is_earth_level(levels@[3]@, 3, w3),
            forall|i: int| 0 <= i < levels@.len() ==> (#[trigger] levels@[i]).wf(),
    {
        let mut levels: Vec<Level> = Vec::new();
        levels.push(
            Level {
                code: "EARTH 1",
                title: "Direct Shot",
                level_in_environment: 1,
                environment: Self::earth_under(w0),
                target: target(165_000_000, 28_000_000, 12_000_000),
                bounce_surface: None,
                barriers: open_field(),
                required_bounces: 0,
                default_launch: launch(829_038, 559_193, 56_000_000, 2_000_000),
            },
        );
        levels.push(
            Level {
                code: "EARTH 2",
                title: "Single Bounce",
                level_in_environment: 2,
                environment: Self::earth_under(w1),
                target: target(208_000_000, 36_000_000, 12_000_000),
                bounce_surface: slab(86_000_000, 146_000_000, 19_000_000, 13_000_000, 820_000),
                barriers: open_field(),
                required_bounces: 1,
                default_launch: launch(857_167, 515_038, 58_000_000, 2_000_000),
            },
        );
        levels.push(
            Level {
                code: "EARTH 3",
                title: "Thread The Gap",
                level_in_environment: 3,
                environment: Self::earth_under(w2),
                target: target(230_000_000, 34_000_000, 12_000_000),
                bounce_surface: None,
                barriers: gap(
                    barrier(133_000_000, 0, 9_000_000, 24_000_000),
                    barrier(133_000_000, 58_000_000, 9_000_000, 42_000_000),
                ),
                required_bounces: 0,
                default_launch: launch(866_025, 500_000, 64_000_000, 2_500_000),
            },
        );
        levels.push(
            Level {
                code: "EARTH 4",
                title: "Bank Shot Through Gap",
                level_in_environment: 4,
                environment: Self::earth_under(w3),
                target: target(280_000_000, 36_000_000, 12_000_000),
                bounce_surface: slab(120_000_000, 188_000_000, 22_000_000, 15_000_000, 800_000),
                barriers: gap(
                    barrier(208_000_000, 0, 10_000_000, 28_000_000),
                    barrier(208_000_000, 62_000_000, 10_000_000, 38_000_000),
                ),
                required_bounces: 1,
                default_launch: launch(838_671, 544_639, 67_000_000, 3_000_000),
            },
        );
        levels
    }

    fn earth_under(wind: i64) -> (env: Environment)
        ensures
            env == earth(wind),
    {
        Environment {
            name: "Earth",
            gravity: EARTH_GRAVITY,
            wind_accel_x: wind,
            drag_linear: EARTH_DRAG,
        }
    }

    fn on_moon() -> (env: Environment)
        ensures
            env == moon(),
    {
        Environment { name: "Moon", gravity: MOON_GRAVITY, wind_accel_x: 0, drag_linear: 0 }
    }

    /// The four levels on the Moon.
    pub fn moon_campaign() -> (levels: Vec<Level>)
        ensures
            levels@.len() == MOON_LEVELS,
            forall|i: int| 0 <= i < MOON_LEVELS ==> is_moon_level((#[trigger] levels@[i])@, i),
            forall|i: int| 0 <= i < levels@.len() ==> (#[trigger] levels@[i]).wf(),
    {
        let mut levels: Vec<Level> = Vec::new();
        levels.push(
            Level {
                code: "MOON 1",
                title: "Direct Shot",
                level_in_environment: 1,
                environment: Self::on_moon(),
                target: target(700_000_000, 130_000_000, 30_000_000),
                bounce_surface: None,
                barriers: open_field(),
                required_bounces: 0,
                default_launch: launch(951_057, 309_017, 90_000_000, 20_000_000),
            },
        );
        levels.push(
            Level {
                code: "MOON 2",
                title: "Bounce Into Target",
                level_in_environment: 2,
                environment: Self::on_moon(),
                target: target(980_000_000, 190_000_000, 35_000_000),
                bounce_surface: slab(380_000_000, 690_000_000, 95_000_000, 75_000_000, 900_000),
                barriers: open_field(),
                required_bounces: 1,
                default_launch: launch(882_948, 469_472, 145_000_000, 22_000_000),
            },
        );
        levels.push(
            Level {
                code: "MOON 3",
                title: "Thread The Gap",
                level_in_environment: 3,
                environment: Self::on_moon(),
                target: target(980_000_000, 190_000_000, 32_000_000),
                bounce_surface: None,
                barriers: gap(
                    barrier(560_000_000, 0, 38_000_000, 230_000_000),
                    barrier(560_000_000, 310_000_000, 38_000_000, 260_000_000),
                ),
                required_bounces: 0,
                default_launch: launch(939_693, 342_020, 145_000_000, 24_000_000),
            },
        );
        levels.push(
            Level {
                code: "MOON 4",
                title: "Bank Shot Through Gap",
                level_in_environment: 4,
                environment: Self::on_moon(),
                target: target(1_110_000_000, 220_000_000, 32_000_000),
                bounce_surface: slab(420_000_000, 710_000_000, 106_000_000, 84_000_000, 880_000),
                barriers: gap(
                    barrier(790_000_000, 0, 36_000_000, 250_000_000),
                    barrier(790_000_000, 340_000_000, 36_000_000, 260_000_000),
                ),
                required_bounces: 1,
                default_launch: launch(913_545, 406_737, 170_000_000, 30_000_000),
            },
        );
        levels
    }
}

} // verus!
