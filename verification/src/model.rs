//! The data of a level and of a shot: environment, launch settings, target,
//! bounce surface, barriers, the projectile in flight, and what a step or a
//! whole predicted flight ends in.

use vstd::prelude::*;
use crate::fixed::{in_range, LIMIT, SCALE};
use crate::geometry::{Heading, Rect, Vec2};

verus! {

/// What the player sets before a shot: the launch direction as a unit
/// heading, the launch speed, and the height of the launch point.
#[derive(Clone, Copy, Debug, PartialEq, Eq, Structural)]
pub struct LaunchConfig {
    pub heading: Heading,
    pub speed: i64,
    pub height: i64,
}

/// The accelerations that act on every projectile of a level.
#[derive(Clone, Copy, Debug)]
pub struct Environment {
    pub name: &'static str,
    pub gravity: i64,
    pub wind_accel_x: i64,
    pub drag_linear: i64,
}

/// A reflecting quadrilateral: four corners in order, and the fraction of
/// normal speed a bounce keeps.
#[derive(Clone, Copy, Debug)]
pub struct BounceSurface {
    pub corners: [Vec2; 4],
    pub restitution: i64,
}

/// The disc a shot has to reach.
#[derive(Clone, Copy, Debug, PartialEq, Eq, Structural)]
pub struct Target {
    pub center: Vec2,
    pub radius: i64,
}

/// A rectangle that ends any flight entering it.
#[derive(Clone, Copy, Debug, PartialEq, Eq, Structural)]
pub struct Barrier {
    pub rect: Rect,
}

/// One level of the campaign.
#[derive(Debug)]
pub struct Level {
    pub code: &'static str,
    pub title: &'static str,
    pub level_in_environment: usize,
    pub environment: Environment,
    pub target: Target,
    pub bounce_surface: Option<BounceSurface>,
    pub barriers: Vec<Barrier>,
    pub required_bounces: u32,
    pub default_launch: LaunchConfig,
}

/// A level as a mathematical value: the barriers as a sequence.
pub struct LevelView {
    pub code: &'static str,
    pub title: &'static str,
    pub level_in_environment: usize,
    pub environment: Environment,
    pub target: Target,
    pub bounce_surface: Option<BounceSurface>,
    pub barriers: Seq<Barrier>,
    pub required_bounces: u32,
    pub default_launch: LaunchConfig,
}

/// A projectile in flight.
#[derive(Clone, Copy, Debug, PartialEq, Eq, Structural)]
pub struct Projectile {
    pub position: Vec2,
    pub velocity: Vec2,
    pub elapsed: i64,
    pub bounces: u32,
}

/// How one step of a flight ended.
#[derive(Clone, Copy, Debug, PartialEq, Eq, Structural)]
pub enum StepOutcome {
    Flying,
    HitTarget,
    HitGround,
    HitBarrier,
}

/// A whole flight simulated ahead of time.
#[derive(Debug)]
pub struct Prediction {
    pub points: Vec<Vec2>,
    pub range: i64,
    pub flight_time: i64,
    pub bounces: u32,
    pub outcome: StepOutcome,
}

/// A predicted flight as a mathematical value.
pub struct PredictionView {
    pub points: Seq<Vec2>,
    pub range: i64,
    pub flight_time: i64,
    pub bounces: u32,
    pub outcome: StepOutcome,
}

impl LaunchConfig {
    /// A unit heading, a speed that is not negative, and speed and height
    /// within the stored range.
    pub open spec fn wf(self) -> bool {
        &&& self.heading.unit()
        &&& 0 <= self.speed <= LIMIT
        &&& in_range(self.height as int)
    }

    pub fn is_valid(&self) -> (ok: bool)
        ensures
            ok == self.wf(),
    {
        self.heading.is_unit() && 0 <= self.speed && self.speed <= LIMIT && -LIMIT <= self.height
            && self.height <= LIMIT
    }
}

impl Environment {
    pub open spec fn wf(self) -> bool {
        &&& in_range(self.gravity as int)
        &&& in_range(self.wind_accel_x as int)
        &&& in_range(self.drag_linear as int)
    }

    pub fn is_valid(&self) -> (ok: bool)
        ensures
            ok == self.wf(),
    {
        -LIMIT <= self.gravity && self.gravity <= LIMIT && -LIMIT <= self.wind_accel_x
            && self.wind_accel_x <= LIMIT && -LIMIT <= self.drag_linear && self.drag_linear
            <= LIMIT
    }
}

impl BounceSurface {
    /// Stored corners, and a restitution between zero and one.
    pub open spec fn wf(self) -> bool {
        &&& forall|i: int| 0 <= i < 4 ==> (#[trigger] self.corners@[i]).wf()
        &&& 0 <= self.restitution <= SCALE
    }

    pub fn is_valid(&self) -> (ok: bool)
        ensures
            ok == self.wf(),
    {
        let ok: bool = self.corners[0].is_valid() && self.corners[1].is_valid()
            && self.corners[2].is_valid() && self.corners[3].is_valid() && 0 <= self.restitution
            && self.restitution <= SCALE;
        proof {
            if ok {
                assert forall|i: int| 0 <= i < 4 implies (#[trigger] self.corners@[i]).wf() by {
                    if i == 0 {
                    } else if i == 1 {
                    } else if i == 2 {
                    } else {
                    }
                }
            } else {
                assert(self.corners@[0].wf() && self.corners@[1].wf() && self.corners@[2].wf()
                    && self.corners@[3].wf() ==> !(0 <= self.restitution <= SCALE));
            }
        }
        ok
    }
}

impl Target {
    pub open spec fn wf(self) -> bool {
        self.center.wf() && 0 <= self.radius <= LIMIT
    }

    pub fn is_valid(&self) -> (ok: bool)
        ensures
            ok == self.wf(),
    {
        self.center.is_valid() && 0 <= self.radius && self.radius <= LIMIT
    }
}

impl Projectile {
    pub open spec fn wf(self) -> bool {
        &&& self.position.wf()
        &&& self.velocity.wf()
        &&& 0 <= self.elapsed <= LIMIT
    }

    pub fn is_valid(&self) -> (ok: bool)
        ensures
            ok == self.wf(),
    {
        self.position.is_valid() && self.velocity.is_valid() && 0 <= self.elapsed && self.elapsed
            <= LIMIT
    }
}

impl View for Level {
    type V = LevelView;

    open spec fn view(&self) -> LevelView {
        LevelView {
            code: self.code,
            title: self.title,
            level_in_environment: self.level_in_environment,
            environment: self.environment,
            target: self.target,
            bounce_surface: self.bounce_surface,
            barriers: self.barriers@,
            required_bounces: self.required_bounces,
            default_launch: self.default_launch,
        }
    }
}

impl LevelView {
    /// Every part of the level lies within the stored range.
    pub open spec fn wf(self) -> bool {
        &&& self.environment.wf()
        &&& self.target.wf()
        &&& (self.bounce_surface matches Some(surface) ==> surface.wf())
        &&& forall|i: int| 0 <= i < self.barriers.len() ==> (#[trigger] self.barriers[i]).rect.wf()
        &&& self.default_launch.wf()
    }
}

impl Level {
    /// Every part of the level lies within the stored range.
    pub open spec fn wf(&self) -> bool {
        self@.wf()
    }

    pub fn is_valid(&self) -> (ok: bool)
        ensures
            ok == self.wf(),
    {
        if !self.environment.is_valid() || !self.target.is_valid()
            || !self.default_launch.is_valid() {
            return false;
        }
        match self.bounce_surface {
            Some(surface) => {
                if !surface.is_valid() {
                    return false;
                }
            },
            None => {},
        }
        let mut i: usize = 0;
        while i < self.barriers.len()
            invariant
                0 <= i <= self.barriers.len(),
                forall|k: int| 0 <= k < i ==> (#[trigger] self.barriers@[k]).rect.wf(),
            decreases self.barriers.len() - i,
        {
            if !self.barriers[i].rect.is_valid() {
                assert(!self@.barriers[i as int].rect.wf());
                return false;
            }
            i = i + 1;
        }
        true
    }
}

impl PredictionView {
    /// Every point of the path and the range lie within the stored range.
    pub open spec fn wf(self) -> bool {
        &&& forall|i: int| 0 <= i < self.points.len() ==> (#[trigger] self.points[i]).wf()
        &&& in_range(self.range as int)
    }
}

impl Prediction {
    /// Every point of the path and the range lie within the stored range.
    pub open spec fn wf(&self) -> bool {
        self@.wf()
    }

    pub fn is_valid(&self) -> (ok: bool)
        ensures
            ok == self.wf(),
    {
        if !(-LIMIT <= self.range && self.range <= LIMIT) {
            return false;
        }
        let mut i: usize = 0;
        while i < self.points.len()
            invariant
                0 <= i <= self.points.len(),
                forall|k: int| 0 <= k < i ==> (#[trigger] self.points@[k]).wf(),
            decreases self.points.len() - i,
        {
            if !self.points[i].is_valid() {
                assert(!self@.points[i as int].wf());
                return false;
            }
            i = i + 1;
        }
        true
    }
}

impl View for Prediction {
    type V = PredictionView;

    open spec fn view(&self) -> PredictionView {
        PredictionView {
            points: self.points@,
            range: self.range,
            flight_time: self.flight_time,
            bounces: self.bounces,
            outcome: self.outcome,
        }
    }
}

} // verus!
