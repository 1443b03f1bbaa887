//! The game around the flight: the phase of the current shot, the frame's
//! actions, level navigation and the unlock frontier.

use vstd::prelude::*;
use crate::campaign::{earth_wind, is_earth_level, is_moon_level, EARTH_LEVELS, MOON_LEVELS};
use crate::fixed::{
    floor_div, lemma_floor_div_bound, lemma_product_bound, LIMIT, SCALE, TICKS_PER_SECOND,
};
use crate::geometry::Vec2;
use crate::model::{LaunchConfig, Level, LevelView, Projectile, StepOutcome};
use crate::status::Status;
use crate::physics::{
    launch_projectile, launch_projectile_spec, step_projectile, step_spec, FIXED_STEP,
    MAX_SIM_TIME,
};

verus! {

/// Most simulated time one frame may consume: 0.10 s.
pub const MAX_FRAME_TICKS: u32 = 24_000;

/// How fast a held key moves the launch height: 90 m/s.
pub const HEIGHT_KEY_RATE: i64 = 90_000_000;

/// How fast a held key changes the launch speed: 140 m/s per second.
pub const SPEED_KEY_RATE: i64 = 140_000_000;

/// Lowest launch speed the controls allow: 5 m/s.
pub const MIN_SPEED: i64 = 5_000_000;

/// Highest launch speed the controls allow: 500 m/s.
pub const MAX_SPEED: i64 = 500_000_000;

/// Greatest launch height the controls allow: 400 m.
pub const MAX_HEIGHT: i64 = 400_000_000;

/// Where a shot stands.
#[derive(Clone, Copy, Debug, PartialEq, Eq, Structural)]
pub enum GamePhase {
    Aiming,
    Flying,
    Success,
    Failed,
}

/// Which screen is shown.
#[derive(Clone, Copy, Debug, PartialEq, Eq, Structural)]
pub enum AppScene {
    Title,
    Game,
}

/// The actions asked for during one frame.
#[derive(Clone, Copy, Debug, PartialEq, Eq, Structural)]
pub struct FrameActions {
    pub launch_pause: bool,
    pub reset: bool,
    pub prev_level: bool,
    pub next_level: bool,
}

/// The keys held during one frame that adjust the launch settings; while
/// the mouse button is held they are ignored.
#[derive(Clone, Copy, Debug, PartialEq, Eq, Structural)]
pub struct HeldKeys {
    pub mouse_button: bool,
    pub raise: bool,
    pub lower: bool,
    pub faster: bool,
    pub slower: bool,
}

/// The state of the current shot.
#[derive(Debug)]
pub struct GameState {
    pub phase: GamePhase,
    pub shot: Option<Projectile>,
    pub trail: Vec<Vec2>,
    pub paused: bool,
    pub status: Status,
}

/// The state of the current shot as a mathematical value.
pub struct GameStateView {
    pub phase: GamePhase,
    pub shot: Option<Projectile>,
    pub trail: Seq<Vec2>,
    pub paused: bool,
    pub status: Status,
}

/// Everything a session holds: the campaign, where the player stands in it,
/// the launch settings and the current shot.
#[derive(Debug)]
pub struct AppRuntime {
    pub levels: Vec<Level>,
    pub current_level_idx: usize,
    pub highest_unlocked_level: usize,
    pub config: LaunchConfig,
    pub game: GameState,
    pub show_preview: bool,
    pub sim_speed: i64,
    pub scene: AppScene,
}

/// A session as a mathematical value.
pub struct AppView {
    pub levels: Seq<LevelView>,
    pub current_level_idx: usize,
    pub highest_unlocked_level: usize,
    pub config: LaunchConfig,
    pub game: GameStateView,
    pub show_preview: bool,
    pub sim_speed: i64,
    pub scene: AppScene,
}

impl Default for FrameActions {
    fn default() -> (actions: FrameActions)
        ensures
            actions == FrameActions::none(),
    {
        FrameActions { launch_pause: false, reset: false, prev_level: false, next_level: false }
    }
}

impl FrameActions {
    /// No action at all.
    pub open spec fn none() -> FrameActions {
        FrameActions { launch_pause: false, reset: false, prev_level: false, next_level: false }
    }

    /// Every action that either of the two asks for.
    pub open spec fn merged(self, other: FrameActions) -> FrameActions {
        FrameActions {
            launch_pause: self.launch_pause || other.launch_pause,
            reset: self.reset || other.reset,
            prev_level: self.prev_level || other.prev_level,
            next_level: self.next_level || other.next_level,
        }
    }

    /// Every action that either of the two asks for.
    pub fn merge(self, other: FrameActions) -> (both: FrameActions)
        ensures
            both == self.merged(other),
    {
        FrameActions {
            launch_pause: self.launch_pause || other.launch_pause,
            reset: self.reset || other.reset,
            prev_level: self.prev_level || other.prev_level,
            next_level: self.next_level || other.next_level,
        }
    }
}

/// `value` held between `low` and `high`.
pub open spec fn held_between(value: int, low: int, high: int) -> int {
    if value < low {
        low
    } else if value > high {
        high
    } else {
        value
    }
}

/// How far a key rate moves a setting in `frame_dt` ticks.
pub open spec fn key_travel(rate: int, frame_dt: int) -> int {
    rate * frame_dt / (TICKS_PER_SECOND as int)
}

/// A setting after a frame: moved up and down by the keys held, unless the
/// mouse button is held, then held between its bounds.
pub open spec fn adjusted(
    value: int,
    mouse_button: bool,
    up: bool,
    down: bool,
    rate: int,
    frame_dt: int,
    low: int,
    high: int,
) -> int {
    let travel = key_travel(rate, frame_dt);
    let raised = if !mouse_button && up {
        value + travel
    } else {
        value
    };
    let lowered = if !mouse_button && down {
        raised - travel
    } else {
        raised
    };
    held_between(lowered, low, high)
}

/// The launch settings after a frame of `frame_dt` ticks with `keys` held.
pub open spec fn keyboard_adjusted(config: LaunchConfig, keys: HeldKeys, frame_dt: int) -> LaunchConfig {
    LaunchConfig {
        heading: config.heading,
        speed: adjusted(
            config.speed as int,
            keys.mouse_button,
            keys.faster,
            keys.slower,
            SPEED_KEY_RATE as int,
            frame_dt,
            MIN_SPEED as int,
            MAX_SPEED as int,
        ) as i64,
        height: adjusted(
            config.height as int,
            keys.mouse_button,
            keys.raise,
            keys.lower,
            HEIGHT_KEY_RATE as int,
            frame_dt,
            0,
            MAX_HEIGHT as int,
        ) as i64,
    }
}

fn adjust(
    value: i64,
    mouse_button: bool,
    up: bool,
    down: bool,
    rate: i64,
    frame_dt: u32,
    low: i64,
    high: i64,
) -> (r: i64)
    requires
        0 <= rate <= 1_000_000_000,
        low <= high,
    ensures
        r == adjusted(
            value as int,
            mouse_button,
            up,
            down,
            rate as int,
            frame_dt as int,
            low as int,
            high as int,
        ),
        low <= r <= high,
{
    proof {
        lemma_product_bound(rate as int, frame_dt as int, 1_000_000_000, 0x1_0000_0000);
        lemma_floor_div_bound(rate * frame_dt, TICKS_PER_SECOND as int);
    }
    let travel: i128 = floor_div((rate as i128) * (frame_dt as i128), TICKS_PER_SECOND as i128);
    let mut moved: i128 = value as i128;
    if !mouse_button && up {
        moved = moved + travel;
    }
    if !mouse_button && down {
        moved = moved - travel;
    }
    if moved < low as i128 {
        low
    } else if moved > high as i128 {
        high
    } else {
        moved as i64
    }
}

/// Moves the launch height and speed by the keys held during a frame of
/// `frame_dt` ticks, and holds both within the bounds of the controls.
pub fn apply_keyboard_adjustments(config: &mut LaunchConfig, keys: HeldKeys, frame_dt: u32)
    ensures
        *final(config) == keyboard_adjusted(*old(config), keys, frame_dt as int),
        MIN_SPEED <= final(config).speed <= MAX_SPEED,
        0 <= final(config).height <= MAX_HEIGHT,
        old(config).heading.unit() ==> final(config).wf(),
{
    config.height = adjust(
        config.height,
        keys.mouse_button,
        keys.raise,
        keys.lower,
        HEIGHT_KEY_RATE,
        frame_dt,
        0,
        MAX_HEIGHT,
    );
    config.speed = adjust(
        config.speed,
        keys.mouse_button,
        keys.faster,
        keys.slower,
        SPEED_KEY_RATE,
        frame_dt,
        MIN_SPEED,
        MAX_SPEED,
    );
}

/// The phase in a word; a paused flight reads "Paused".
pub fn phase_text(phase: GamePhase, paused: bool) -> (text: &'static str)
    ensures
        text@ == match phase {
            GamePhase::Aiming => "Aiming"@,
            GamePhase::Flying => if paused {
                "Paused"@
            } else {
                "Flying"@
            },
            GamePhase::Success => "Success"@,
            GamePhase::Failed => "Failed"@,
        },
{
    match phase {
        GamePhase::Aiming => "Aiming",
        GamePhase::Flying => {
            if paused {
                "Paused"
            } else {
                "Flying"
            }
        },
        GamePhase::Success => "Success",
        GamePhase::Failed => "Failed",
    }
}

impl GameStateView {
    /// A projectile exists exactly while the shot is flying, and only a
    /// flying shot can be paused.
    pub open spec fn wf(self) -> bool {
        &&& self.shot is Some <==> self.phase == GamePhase::Flying
        &&& self.shot matches Some(p) ==> p.wf()
        &&& self.paused ==> self.phase == GamePhase::Flying
    }

    /// The state before any shot.
    pub open spec fn initial() -> GameStateView {
        GameStateView {
            phase: GamePhase::Aiming,
            shot: None,
            trail: Seq::empty(),
            paused: false,
            status: Status::Ready,
        }
    }

    /// The state right after a launch with `config`: flying, with a fresh
    /// projectile and a trail that holds the launch point alone.
    pub open spec fn launched(config: LaunchConfig) -> GameStateView {
        GameStateView {
            phase: GamePhase::Flying,
            shot: Some(launch_projectile_spec(config)),
            trail: seq![launch_projectile_spec(config).position],
            paused: false,
            status: Status::ShotLaunched,
        }
    }

    /// The state after a reset: aiming, with nothing in flight and no trail.
    pub open spec fn cleared() -> GameStateView {
        GameStateView {
            phase: GamePhase::Aiming,
            shot: None,
            trail: Seq::empty(),
            paused: false,
            status: Status::Reset,
        }
    }

    /// The state with another status.
    pub open spec fn with_status(self, status: Status) -> GameStateView {
        GameStateView { status, ..self }
    }
}

impl View for GameState {
    type V = GameStateView;

    open spec fn view(&self) -> GameStateView {
        GameStateView {
            phase: self.phase,
            shot: self.shot,
            trail: self.trail@,
            paused: self.paused,
            status: self.status,
        }
    }
}

impl GameState {
    pub open spec fn wf(&self) -> bool {
        self@.wf()
    }

    pub fn is_valid(&self) -> (ok: bool)
        ensures
            ok == self.wf(),
    {
        match self.shot {
            Some(p) => self.phase == GamePhase::Flying && p.is_valid(),
            None => self.phase != GamePhase::Flying && !self.paused,
        }
    }

    /// The state before any shot.
    pub fn new() -> (game: GameState)
        ensures
            game@ == GameStateView::initial(),
            game.wf(),
    {
        GameState {
            phase: GamePhase::Aiming,
            shot: None,
            trail: Vec::new(),
            paused: false,
            status: Status::Ready,
        }
    }

    /// Launches a shot with `config`, whatever came before.
    pub fn launch(&mut self, config: LaunchConfig)
        requires
            config.wf(),
        ensures
            final(self)@ == GameStateView::launched(config),
            final(self).wf(),
    {
        let shot = launch_projectile(config);
        self.phase = GamePhase::Flying;
        self.paused = false;
        self.shot = Some(shot);
        self.trail.clear();
        self.trail.push(shot.position);
        self.status = Status::ShotLaunched;
        assert(self.trail@ =~= seq![shot.position]);
    }

    /// Back to aiming: nothing in flight, no trail, not paused.
    pub fn reset(&mut self)
        ensures
            final(self)@ == GameStateView::cleared(),
            final(self).wf(),
    {
        self.phase = GamePhase::Aiming;
        self.shot = None;
        self.trail.clear();
        self.paused = false;
        self.status = Status::Reset;
        assert(self.trail@ =~= Seq::<Vec2>::empty());
    }
}

impl AppView {
    /// A campaign of valid levels, the player on a level that is unlocked,
    /// valid settings and a valid shot.
    pub open spec fn wf(self) -> bool {
        &&& self.current_level_idx <= self.highest_unlocked_level < self.levels.len()
        &&& self.levels.len() <= usize::MAX
        &&& forall|i: int| 0 <= i < self.levels.len() ==> (#[trigger] self.levels[i]).wf()
        &&& self.config.wf()
        &&& self.game.wf()
        &&& 0 <= self.sim_speed <= LIMIT
    }

    /// The way on is to be offered: the shot succeeded, and a level follows
    /// the current one and is unlocked.
    pub open spec fn next_level_offered(self) -> bool {
        &&& self.game.phase == GamePhase::Success
        &&& self.current_level_idx + 1 < self.levels.len()
        &&& self.current_level_idx < self.highest_unlocked_level
    }

    /// The level the player is on.
    pub open spec fn current_level(self) -> LevelView {
        self.levels[self.current_level_idx as int]
    }

    /// The session on level `index`, with that level's default settings and
    /// a cleared shot that reports `status`.
    pub open spec fn on_level(self, index: usize, status: Status) -> AppView {
        AppView {
            current_level_idx: index,
            config: self.levels[index as int].default_launch,
            game: GameStateView::cleared().with_status(status),
            ..self
        }
    }

    /// The session after the frame's launch-or-pause action: a flying shot
    /// is paused or resumed, anything else gives way to a new launch.
    pub open spec fn after_launch_pause(self) -> AppView {
        if self.game.phase == GamePhase::Flying {
            AppView {
                game: GameStateView {
                    paused: !self.game.paused,
                    status: if !self.game.paused {
                        Status::Paused
                    } else {
                        Status::Resumed
                    },
                    ..self.game
                },
                ..self
            }
        } else {
            AppView { game: GameStateView::launched(self.config), ..self }
        }
    }

    /// The session after the frame's reset action.
    pub open spec fn after_reset(self) -> AppView {
        AppView { game: GameStateView::cleared(), ..self }
    }

    /// The session after a frame's actions, and whether the level changed:
    /// launch or pause first, then reset, then one step back if there is a
    /// level before, else one step on if the next level is unlocked.
    pub open spec fn after_actions(self, actions: FrameActions) -> (AppView, bool) {
        let s1 = if actions.launch_pause {
            self.after_launch_pause()
        } else {
            self
        };
        let s2 = if actions.reset {
            s1.after_reset()
        } else {
            s1
        };
        if actions.prev_level && s2.current_level_idx > 0 {
            let index = (s2.current_level_idx - 1) as usize;
            (s2.on_level(index, Status::Moved { code: s2.levels[index as int].code }), true)
        } else if actions.next_level && s2.current_level_idx < s2.highest_unlocked_level {
            let index = (s2.current_level_idx + 1) as usize;
            (s2.on_level(index, Status::Advanced { code: s2.levels[index as int].code }), true)
        } else {
            (s2, false)
        }
    }

    /// The unlock frontier after a hit on the current level: one further
    /// where the hit was on the frontier and a level follows it.
    pub open spec fn frontier_after_hit(self) -> usize {
        if self.current_level_idx == self.highest_unlocked_level && self.highest_unlocked_level
            + 1 < self.levels.len() {
            (self.highest_unlocked_level + 1) as usize
        } else {
            self.highest_unlocked_level
        }
    }

    /// The session after one step of `dt` ticks of a flying shot: the trail
    /// grows by the new position; a hit, a miss or the time limit ends the
    /// flight, and a hit on the frontier level unlocks the next.
    pub open spec fn after_step(self, dt: int) -> AppView {
        let (shot, outcome) = step_spec(self.game.shot->0, self.current_level(), dt);
        let trail = self.game.trail.push(shot.position);
        match outcome {
            StepOutcome::HitTarget => {
                let frontier = self.frontier_after_hit();
                AppView {
                    highest_unlocked_level: frontier,
                    game: GameStateView {
                        phase: GamePhase::Success,
                        shot: None,
                        trail,
                        paused: false,
                        status: Status::TargetHit {
                            elapsed: shot.elapsed,
                            bounces: shot.bounces,
                            next_unlocked: self.current_level_idx < frontier,
                        },
                    },
                    ..self
                }
            },
            StepOutcome::HitGround => AppView {
                game: GameStateView {
                    phase: GamePhase::Failed,
                    shot: None,
                    trail,
                    paused: false,
                    status: Status::HitGround {
                        x: if shot.position.x > 0 {
                            shot.position.x
                        } else {
                            0
                        },
                        bounces: shot.bounces,
                    },
                },
                ..self
            },
            StepOutcome::HitBarrier => AppView {
                game: GameStateView {
                    phase: GamePhase::Failed,
                    shot: None,
                    trail,
                    paused: false,
                    status: Status::BarrierCollision,
                },
                ..self
            },
            StepOutcome::Flying => if shot.elapsed > MAX_SIM_TIME {
                AppView {
                    game: GameStateView {
                        phase: GamePhase::Failed,
                        shot: None,
                        trail,
                        paused: false,
                        status: Status::TimedOut,
                    },
                    ..self
                }
            } else {
                AppView { game: GameStateView { shot: Some(shot), trail, ..self.game }, ..self }
            },
        }
    }

    /// The session after flying for up to `remaining` ticks in fixed steps,
    /// the last one shorter where the time does not divide.
    pub open spec fn after_flight(self, remaining: int) -> AppView
        decreases remaining,
    {
        if remaining <= 0 || self.game.phase != GamePhase::Flying {
            self
        } else {
            let dt = if remaining < FIXED_STEP {
                remaining
            } else {
                FIXED_STEP as int
            };
            self.after_step(dt).after_flight(remaining - dt)
        }
    }

    /// The simulated time a frame of `frame_dt` ticks consumes at the
    /// session's simulation speed.
    pub open spec fn frame_ticks(self, frame_dt: int) -> int {
        let scaled = frame_dt * self.sim_speed / (SCALE as int);
        if scaled < MAX_FRAME_TICKS {
            scaled
        } else {
            MAX_FRAME_TICKS as int
        }
    }

    /// The session after a frame of `frame_dt` ticks: a shot that flies and
    /// is not paused advances; anything else stays as it is.
    pub open spec fn after_frame(self, frame_dt: int) -> AppView {
        if self.game.phase != GamePhase::Flying || self.game.paused {
            self
        } else {
            self.after_flight(self.frame_ticks(frame_dt))
        }
    }
}

impl View for AppRuntime {
    type V = AppView;

    open spec fn view(&self) -> AppView {
        AppView {
            levels: Seq::new(self.levels@.len(), |i: int| self.levels@[i]@),
            current_level_idx: self.current_level_idx,
            highest_unlocked_level: self.highest_unlocked_level,
            config: self.config,
            game: self.game@,
            show_preview: self.show_preview,
            sim_speed: self.sim_speed,
            scene: self.scene,
        }
    }
}

impl AppRuntime {
    pub open spec fn wf(&self) -> bool {
        self@.wf()
    }

    pub fn is_valid(&self) -> (ok: bool)
        ensures
            ok == self.wf(),
    {
        if !(self.current_level_idx <= self.highest_unlocked_level
            && self.highest_unlocked_level < self.levels.len()) {
            return false;
        }
        if !self.config.is_valid() || !self.game.is_valid() || !(0 <= self.sim_speed
            && self.sim_speed <= LIMIT) {
            return false;
        }
        let mut i: usize = 0;
        while i < self.levels.len()
            invariant
                0 <= i <= self.levels.len(),
                forall|k: int| 0 <= k < i ==> (#[trigger] self.levels@[k]).wf(),
            decreases self.levels.len() - i,
        {
            if !self.levels[i].is_valid() {
                assert(self@.levels[i as int] == self.levels@[i as int]@);
                return false;
            }
            i = i + 1;
        }
        assert forall|k: int| 0 <= k < self@.levels.len() implies (#[trigger] self@.levels[k]).wf() by {
            assert(self.levels@[k].wf());
        }
        true
    }

    /// A session at the start of the campaign.
    pub fn new() -> (state: AppRuntime)
        ensures
            state.wf(),
            state.levels@.len() == EARTH_LEVELS + MOON_LEVELS,
            forall|i: int|
                0 <= i < EARTH_LEVELS ==> is_earth_level(
                    (#[trigger] state.levels@[i])@,
                    i,
                    state.levels@[i].environment.wind_accel_x,
                ) && earth_wind(state.levels@[i].environment.wind_accel_x),
            forall|i: int|
                EARTH_LEVELS <= i < EARTH_LEVELS + MOON_LEVELS ==> is_moon_level(
                    (#[trigger] state.levels@[i])@,
                    i - EARTH_LEVELS,
                ),
            state@.current_level_idx == 0,
            state@.highest_unlocked_level == 0,
            state@.config == state@.levels[0].default_launch,
            state@.game == GameStateView::initial(),
            state@.show_preview,
            state@.sim_speed == SCALE,
            state@.scene == AppScene::Title,
    {
        let levels = Level::campaign();
        assert(levels@[0].wf());
        let config = levels[0].default_launch;
        AppRuntime {
            levels,
            current_level_idx: 0,
            highest_unlocked_level: 0,
            config,
            game: GameState::new(),
            show_preview: true,
            sim_speed: SCALE,
            scene: AppScene::Title,
        }
    }

    /// A session at the start of the campaign `levels`, or `None` where
    /// there is no level to start on or some level is not valid.
    pub fn with_levels(levels: Vec<Level>) -> (state: Option<AppRuntime>)
        ensures
            state is Some <==> levels@.len() > 0 && forall|i: int|
                0 <= i < levels@.len() ==> (#[trigger] levels@[i]).wf(),
            state matches Some(s) ==> {
                &&& s.wf()
                &&& s.levels@ == levels@
                &&& s@.current_level_idx == 0
                &&& s@.highest_unlocked_level == 0
                &&& s@.config == s@.levels[0].default_launch
                &&& s@.game == GameStateView::initial()
                &&& s@.show_preview
                &&& s@.sim_speed == SCALE
                &&& s@.scene == AppScene::Title
            },
    {
        if levels.len() == 0 {
            return None;
        }
        let mut i: usize = 0;
        while i < levels.len()
            invariant
                0 <= i <= levels.len(),
                forall|k: int| 0 <= k < i ==> (#[trigger] levels@[k]).wf(),
            decreases levels.len() - i,
        {
            if !levels[i].is_valid() {
                return None;
            }
            i = i + 1;
        }
        let config = levels[0].default_launch;
        Some(
            AppRuntime {
                levels,
                current_level_idx: 0,
                highest_unlocked_level: 0,
                config,
                game: GameState::new(),
                show_preview: true,
                sim_speed: SCALE,
                scene: AppScene::Title,
            },
        )
    }

    /// Whether the way on is to be offered: after a success, where a level
    /// follows the current one and is unlocked.
    pub fn next_level_offered(&self) -> (offered: bool)
        requires
            self.wf(),
        ensures
            offered == self@.next_level_offered(),
    {
        self.game.phase == GamePhase::Success && self.current_level_idx + 1 < self.levels.len()
            && self.current_level_idx < self.highest_unlocked_level
    }

    /// The level the player is on.
    pub fn current_level(&self) -> (level: &Level)
        requires
            self.wf(),
        ensures
            level@ == self@.current_level(),
            level.wf(),
    {
        &self.levels[self.current_level_idx]
    }

    /// How many levels the campaign has.
    pub fn levels_len(&self) -> (len: usize)
        ensures
            len == self@.levels.len(),
    {
        self.levels.len()
    }

    /// Takes the current level's default settings and clears the shot.
    pub fn load_current_level_defaults(&mut self)
        requires
            old(self).wf(),
        ensures
            final(self)@ == old(self)@.on_level(old(self).current_level_idx, Status::Reset),
            final(self).levels@ == old(self).levels@,
            final(self).wf(),
    {
        self.config = self.levels[self.current_level_idx].default_launch;
        self.game.reset();
    }

    /// Reports the current level as loaded.
    pub fn set_loaded_status(&mut self)
        requires
            old(self).wf(),
        ensures
            final(self)@ == (AppView {
                game: old(self)@.game.with_status(
                    Status::Loaded { code: old(self)@.current_level().code },
                ),
                ..old(self)@
            }),
            final(self).levels@ == old(self).levels@,
            final(self).wf(),
    {
        self.game.status = Status::Loaded { code: self.levels[self.current_level_idx].code };
    }

    /// Reports the current level as moved back to.
    pub fn set_moved_status(&mut self)
        requires
            old(self).wf(),
        ensures
            final(self)@ == (AppView {
                game: old(self)@.game.with_status(
                    Status::Moved { code: old(self)@.current_level().code },
                ),
                ..old(self)@
            }),
            final(self).levels@ == old(self).levels@,
            final(self).wf(),
    {
        self.game.status = Status::Moved { code: self.levels[self.current_level_idx].code };
    }

    /// Reports the current level as advanced to.
    pub fn set_advanced_status(&mut self)
        requires
            old(self).wf(),
        ensures
            final(self)@ == (AppView {
                game: old(self)@.game.with_status(
                    Status::Advanced { code: old(self)@.current_level().code },
                ),
                ..old(self)@
            }),
            final(self).levels@ == old(self).levels@,
            final(self).wf(),
    {
        self.game.status = Status::Advanced { code: self.levels[self.current_level_idx].code };
    }
}

/// Carries out a frame's actions and says whether the level changed.
pub fn apply_actions(state: &mut AppRuntime, actions: FrameActions) -> (changed: bool)
    requires
        old(state).wf(),
    ensures
        (final(state)@, changed) == old(state)@.after_actions(actions),
        final(state).wf(),
        final(state).levels@ == old(state).levels@,
        final(state).highest_unlocked_level == old(state).highest_unlocked_level,
        final(state).current_level_idx > old(state).current_level_idx ==> actions.next_level
            && old(state).current_level_idx < old(state).highest_unlocked_level,
{
    if actions.launch_pause {
        match state.game.phase {
            GamePhase::Flying => {
                state.game.paused = !state.game.paused;
                state.game.status = if state.game.paused {
                    Status::Paused
                } else {
                    Status::Resumed
                };
            },
            _ => {
                let config = state.config;
                state.game.launch(config);
            },
        }
    }
    if actions.reset {
        state.game.reset();
    }
    if actions.prev_level && state.current_level_idx > 0 {
        state.current_level_idx -= 1;
        state.load_current_level_defaults();
        state.set_moved_status();
        return true;
    }
    if actions.next_level && state.current_level_idx < state.highest_unlocked_level {
        state.current_level_idx += 1;
        state.load_current_level_defaults();
        state.set_advanced_status();
        return true;
    }
    false
}

/// Advances a flying, unpaused shot through one frame of `frame_dt` ticks.
pub fn step_active_flight(state: &mut AppRuntime, frame_dt: u32)
    requires
        old(state).wf(),
    ensures
        final(state)@ == old(state)@.after_frame(frame_dt as int),
        final(state).wf(),
        final(state).levels@ == old(state).levels@,
        final(state).current_level_idx == old(state).current_level_idx,
        final(state).highest_unlocked_level >= old(state).highest_unlocked_level,
        final(state).highest_unlocked_level != old(state).highest_unlocked_level ==> {
            &&& final(state).game.phase == GamePhase::Success
            &&& old(state).current_level_idx == old(state).highest_unlocked_level
            &&& final(state).highest_unlocked_level == old(state).highest_unlocked_level + 1
        },
{
    if state.game.phase != GamePhase::Flying || state.game.paused {
        return ;
    }
    proof {
        lemma_product_bound(
            frame_dt as int,
            state.sim_speed as int,
            0x1_0000_0000,
            1_000_000_000_000,
        );
        lemma_floor_div_bound(frame_dt * state.sim_speed, SCALE as int);
    }
    let scaled: i128 = floor_div((frame_dt as i128) * (state.sim_speed as i128), SCALE as i128);
    let mut remaining: u32 = if scaled < MAX_FRAME_TICKS as i128 {
        scaled as u32
    } else {
        MAX_FRAME_TICKS
    };
    let levels_len: usize = state.levels.len();
    while remaining > 0 && state.game.phase == GamePhase::Flying
        invariant
            state.wf(),
            !state.game.paused,
            levels_len == state.levels@.len(),
            state.levels@ == old(state).levels@,
            state.current_level_idx == old(state).current_level_idx,
            old(state)@.after_frame(frame_dt as int) == state@.after_flight(remaining as int),
            state.highest_unlocked_level == old(state).highest_unlocked_level || {
                &&& state.game.phase == GamePhase::Success
                &&& old(state).current_level_idx == old(state).highest_unlocked_level
                &&& state.highest_unlocked_level == old(state).highest_unlocked_level + 1
            },
        decreases remaining,
    {
        let dt: u32 = if remaining < FIXED_STEP {
            remaining
        } else {
            FIXED_STEP
        };
        remaining = remaining - dt;
        let ghost before = state@;
        match state.game.shot {
            Some(flying) => {
                let mut shot = flying;
                assert(state@.levels[state.current_level_idx as int]
                    == state.levels@[state.current_level_idx as int]@);
                let outcome = step_projectile(
                    &mut shot,
                    &state.levels[state.current_level_idx],
                    dt,
                );
                state.game.trail.push(shot.position);
                match outcome {
                    StepOutcome::HitTarget => {
                        if state.current_level_idx == state.highest_unlocked_level
                            && state.highest_unlocked_level + 1 < levels_len {
                            state.highest_unlocked_level += 1;
                        }
                        state.game.phase = GamePhase::Success;
                        state.game.shot = None;
                        state.game.status = Status::TargetHit {
                            elapsed: shot.elapsed,
                            bounces: shot.bounces,
                            next_unlocked: state.current_level_idx < state.highest_unlocked_level,
                        };
                    },
                    StepOutcome::HitGround => {
                        state.game.phase = GamePhase::Failed;
                        state.game.shot = None;
                        state.game.status = Status::HitGround {
                            x: if shot.position.x > 0 {
                                shot.position.x
                            } else {
                                0
                            },
                            bounces: shot.bounces,
                        };
                    },
                    StepOutcome::HitBarrier => {
                        state.game.phase = GamePhase::Failed;
                        state.game.shot = None;
                        state.game.status = Status::BarrierCollision;
                    },
                    StepOutcome::Flying => {
                        if shot.elapsed > MAX_SIM_TIME {
                            state.game.phase = GamePhase::Failed;
                            state.game.shot = None;
                            state.game.status = Status::TimedOut;
                        } else {
                            state.game.shot = Some(shot);
                        }
                    },
                }
            },
            None => {},
        }
        assert(state@ == before.after_step(dt as int));
    }
}

} // verus!
