use parabolic_rust::game::{
    apply_actions, apply_keyboard_adjustments, phase_text, step_active_flight, AppRuntime,
    AppScene, FrameActions, GamePhase, GameState, HeldKeys,
};
use parabolic_rust::status::Status;
use parabolic_rust::geometry::{Heading, Rect, Vec2};
use parabolic_rust::model::{Barrier, Environment, LaunchConfig, Level, Target};
use parabolic_rust::physics::launch_projectile;

fn v(x: i64, y: i64) -> Vec2 {
    Vec2 { x, y }
}

fn launch_up() -> LaunchConfig {
    LaunchConfig { heading: Heading { cos: 600_000, sin: 800_000 }, speed: 10_000_000, height: 2_000_000 }
}

/// A level whose target lies where `target` says; a target around the launch
/// point is hit with the first step.
fn level(code: &'static str, target: Target) -> Level {
    Level {
        code,
        title: "Test",
        level_in_environment: 1,
        environment: Environment { name: "Test", gravity: 9_800_000, wind_accel_x: 0, drag_linear: 0 },
        target,
        bounce_surface: None,
        barriers: vec![],
        required_bounces: 0,
        default_launch: launch_up(),
    }
}

fn near() -> Target {
    Target { center: v(0, 2_000_000), radius: 1_000_000 }
}

fn far() -> Target {
    Target { center: v(900_000_000, 900_000_000), radius: 1_000_000 }
}

fn session(levels: Vec<Level>) -> AppRuntime {
    AppRuntime::with_levels(levels).expect("a campaign with levels")
}

fn only(launch_pause: bool, reset: bool, prev_level: bool, next_level: bool) -> FrameActions {
    FrameActions { launch_pause, reset, prev_level, next_level }
}

#[test]
fn new_game_is_aiming() {
    let game = GameState::new();
    assert_eq!(game.phase, GamePhase::Aiming);
    assert_eq!(game.shot, None);
    assert!(game.trail.is_empty());
    assert!(!game.paused);
    assert_eq!(game.status, Status::Ready);
}

#[test]
fn launch_starts_a_flight_with_a_fresh_trail() {
    let mut game = GameState::new();
    game.trail.push(v(7, 7));
    game.launch(launch_up());
    assert_eq!(game.phase, GamePhase::Flying);
    assert_eq!(game.shot, Some(launch_projectile(launch_up())));
    assert_eq!(game.trail, vec![v(0, 2_000_000)]);
    assert!(!game.paused);
    assert_eq!(game.status, Status::ShotLaunched);
}

#[test]
fn reset_returns_to_aiming() {
    let mut game = GameState::new();
    game.launch(launch_up());
    game.paused = true;
    game.reset();
    assert_eq!(game.phase, GamePhase::Aiming);
    assert_eq!(game.shot, None);
    assert!(game.trail.is_empty());
    assert!(!game.paused);
    assert_eq!(game.status, Status::Reset);
}

#[test]
fn actions_merge_by_or() {
    let a = only(true, false, false, false);
    let b = only(false, false, true, false);
    assert_eq!(a.merge(b), only(true, false, true, false));
    assert_eq!(FrameActions::default(), only(false, false, false, false));
    assert_eq!(FrameActions::default().merge(FrameActions::default()), FrameActions::default());
}

#[test]
fn phase_text_names_each_phase() {
    assert_eq!(phase_text(GamePhase::Aiming, false), "Aiming");
    assert_eq!(phase_text(GamePhase::Flying, false), "Flying");
    assert_eq!(phase_text(GamePhase::Flying, true), "Paused");
    assert_eq!(phase_text(GamePhase::Success, false), "Success");
    assert_eq!(phase_text(GamePhase::Failed, true), "Failed");
}

#[test]
fn campaign_session_starts_on_the_first_level() {
    let state = AppRuntime::new();
    assert_eq!(state.levels_len(), 8);
    assert_eq!(state.current_level_idx, 0);
    assert_eq!(state.highest_unlocked_level, 0);
    assert_eq!(state.config, state.current_level().default_launch);
    assert_eq!(state.current_level().code, "EARTH 1");
    assert_eq!(state.game.phase, GamePhase::Aiming);
    assert!(state.show_preview);
    assert_eq!(state.sim_speed, 1_000_000);
    assert_eq!(state.scene, AppScene::Title);
}

#[test]
fn session_needs_valid_levels() {
    assert!(AppRuntime::with_levels(Vec::new()).is_none());
    let mut broken = level("B", near());
    broken.target.radius = -1;
    assert!(AppRuntime::with_levels(vec![level("A", near()), broken]).is_none());
    assert!(AppRuntime::with_levels(vec![level("A", near()), level("B", far())]).is_some());
}

#[test]
fn launch_pause_launches_then_pauses_then_resumes() {
    let mut state = session(vec![level("A", far())]);
    assert!(!apply_actions(&mut state, only(true, false, false, false)));
    assert_eq!(state.game.phase, GamePhase::Flying);
    assert_eq!(state.game.status, Status::ShotLaunched);
    assert!(!apply_actions(&mut state, only(true, false, false, false)));
    assert!(state.game.paused);
    assert_eq!(state.game.status, Status::Paused);
    assert!(!apply_actions(&mut state, only(true, false, false, false)));
    assert!(!state.game.paused);
    assert_eq!(state.game.status, Status::Resumed);
    assert_eq!(state.game.phase, GamePhase::Flying);
}

#[test]
fn pause_neither_advances_nor_rewinds() {
    let mut state = session(vec![level("A", far())]);
    apply_actions(&mut state, only(true, false, false, false));
    step_active_flight(&mut state, 2_400);
    let shot = state.game.shot;
    let trail = state.game.trail.clone();
    apply_actions(&mut state, only(true, false, false, false));
    step_active_flight(&mut state, 2_400);
    assert_eq!(state.game.shot, shot);
    assert_eq!(state.game.trail, trail);
    apply_actions(&mut state, only(true, false, false, false));
    assert_eq!(state.game.shot, shot);
    step_active_flight(&mut state, 2_400);
    assert_eq!(state.game.shot.unwrap().elapsed, 4_800);
}

#[test]
fn reset_action_follows_a_launch_in_the_same_frame() {
    let mut state = session(vec![level("A", far())]);
    assert!(!apply_actions(&mut state, only(true, true, false, false)));
    assert_eq!(state.game.phase, GamePhase::Aiming);
    assert_eq!(state.game.shot, None);
    assert!(state.game.trail.is_empty());
    assert_eq!(state.game.status, Status::Reset);
}

#[test]
fn frame_without_a_flight_changes_nothing() {
    let mut state = session(vec![level("A", near())]);
    step_active_flight(&mut state, 24_000);
    assert_eq!(state.game.phase, GamePhase::Aiming);
    assert!(state.game.trail.is_empty());
    assert_eq!(state.highest_unlocked_level, 0);
}

#[test]
fn frame_is_cut_into_fixed_steps() {
    let mut state = session(vec![level("A", far())]);
    apply_actions(&mut state, only(true, false, false, false));
    // 2.5 steps: two full steps and one of half the length.
    step_active_flight(&mut state, 2_500);
    assert_eq!(state.game.trail.len(), 1 + 3);
    assert_eq!(state.game.shot.unwrap().elapsed, 2_500);
}

#[test]
fn frame_consumes_at_most_a_tenth_of_a_second() {
    let mut state = session(vec![level("A", far())]);
    apply_actions(&mut state, only(true, false, false, false));
    step_active_flight(&mut state, 240_000);
    assert_eq!(state.game.shot.unwrap().elapsed, 24_000);
    assert_eq!(state.game.trail.len(), 1 + 24);
}

#[test]
fn simulation_speed_scales_the_frame() {
    let mut state = session(vec![level("A", far())]);
    state.sim_speed = 2_500_000;
    apply_actions(&mut state, only(true, false, false, false));
    step_active_flight(&mut state, 2_000);
    assert_eq!(state.game.shot.unwrap().elapsed, 5_000);
    state.sim_speed = 500_000;
    step_active_flight(&mut state, 2_000);
    assert_eq!(state.game.shot.unwrap().elapsed, 6_000);
}

#[test]
fn next_level_is_locked_until_a_success() {
    let mut state = session(vec![level("A", near()), level("B", near()), level("C", far())]);
    let before_config = state.config;
    assert!(!apply_actions(&mut state, only(false, false, false, true)));
    assert_eq!(state.current_level_idx, 0);
    assert_eq!(state.highest_unlocked_level, 0);
    assert_eq!(state.config, before_config);
    assert_eq!(state.game.status, Status::Ready);

    apply_actions(&mut state, only(true, false, false, false));
    step_active_flight(&mut state, 1_000);
    assert_eq!(state.game.phase, GamePhase::Success);
    assert_eq!(state.game.shot, None);
    assert_eq!(state.highest_unlocked_level, 1);
    assert_eq!(
        state.game.status,
        Status::TargetHit { elapsed: 1_000, bounces: 0, next_unlocked: true }
    );

    assert!(apply_actions(&mut state, only(false, false, false, true)));
    assert_eq!(state.current_level_idx, 1);
    assert_eq!(state.game.phase, GamePhase::Aiming);
    assert_eq!(state.game.status, Status::Advanced { code: "B" });
    assert!(!apply_actions(&mut state, only(false, false, false, true)));
    assert_eq!(state.current_level_idx, 1);
}

#[test]
fn success_behind_the_frontier_unlocks_nothing() {
    let mut state = session(vec![level("A", near()), level("B", near()), level("C", far())]);
    apply_actions(&mut state, only(true, false, false, false));
    step_active_flight(&mut state, 1_000);
    assert_eq!(state.highest_unlocked_level, 1);
    apply_actions(&mut state, only(true, false, false, false));
    step_active_flight(&mut state, 1_000);
    assert_eq!(state.game.phase, GamePhase::Success);
    assert_eq!(state.highest_unlocked_level, 1);
    assert_eq!(
        state.game.status,
        Status::TargetHit { elapsed: 1_000, bounces: 0, next_unlocked: true }
    );
}

#[test]
fn frontier_stops_at_the_last_level() {
    let mut state = session(vec![level("A", near())]);
    apply_actions(&mut state, only(true, false, false, false));
    step_active_flight(&mut state, 1_000);
    assert_eq!(state.game.phase, GamePhase::Success);
    assert_eq!(state.highest_unlocked_level, 0);
    assert_eq!(
        state.game.status,
        Status::TargetHit { elapsed: 1_000, bounces: 0, next_unlocked: false }
    );
}

#[test]
fn previous_level_is_always_open() {
    let mut state = session(vec![level("A", near()), level("B", far())]);
    assert!(!apply_actions(&mut state, only(false, false, true, false)));
    assert_eq!(state.current_level_idx, 0);
    apply_actions(&mut state, only(true, false, false, false));
    step_active_flight(&mut state, 1_000);
    assert!(apply_actions(&mut state, only(false, false, false, true)));
    state.config.speed = 77_000_000;
    apply_actions(&mut state, only(true, false, false, false));
    assert!(apply_actions(&mut state, only(false, false, true, false)));
    assert_eq!(state.current_level_idx, 0);
    assert_eq!(state.highest_unlocked_level, 1);
    assert_eq!(state.config, launch_up());
    assert_eq!(state.game.phase, GamePhase::Aiming);
    assert_eq!(state.game.shot, None);
    assert!(state.game.trail.is_empty());
    assert_eq!(state.game.status, Status::Moved { code: "A" });
}

#[test]
fn previous_level_goes_before_next_level() {
    let mut state = session(vec![level("A", near()), level("B", near()), level("C", far())]);
    apply_actions(&mut state, only(true, false, false, false));
    step_active_flight(&mut state, 1_000);
    apply_actions(&mut state, only(false, false, false, true));
    apply_actions(&mut state, only(true, false, false, false));
    step_active_flight(&mut state, 1_000);
    assert_eq!(state.highest_unlocked_level, 2);
    assert_eq!(state.current_level_idx, 1);
    assert!(apply_actions(&mut state, only(false, false, true, true)));
    assert_eq!(state.current_level_idx, 0);
}

#[test]
fn hitting_the_ground_fails_the_shot() {
    let mut state = session(vec![level("A", far())]);
    state.config = LaunchConfig { heading: Heading { cos: 1_000_000, sin: 0 }, speed: 24_000_000, height: 0 };
    apply_actions(&mut state, only(true, false, false, false));
    step_active_flight(&mut state, 24_000);
    assert_eq!(state.game.phase, GamePhase::Failed);
    assert_eq!(state.game.shot, None);
    assert_eq!(state.game.status, Status::HitGround { x: 100_000, bounces: 0 });
    assert_eq!(state.game.trail, vec![v(0, 0), v(100_000, 0)]);
    assert_eq!(state.highest_unlocked_level, 0);
}

#[test]
fn hitting_a_barrier_fails_the_shot() {
    let mut walled = level("A", far());
    walled.barriers = vec![Barrier { rect: Rect { x: -1_000_000, y: 0, w: 2_000_000, h: 9_000_000 } }];
    let mut state = session(vec![walled]);
    apply_actions(&mut state, only(true, false, false, false));
    step_active_flight(&mut state, 1_000);
    assert_eq!(state.game.phase, GamePhase::Failed);
    assert_eq!(state.game.status, Status::BarrierCollision);
}

#[test]
fn flight_past_the_time_limit_fails_the_shot() {
    let mut floating = level("A", far());
    floating.environment.gravity = 0;
    let mut state = session(vec![floating]);
    state.config = LaunchConfig { heading: Heading { cos: 0, sin: 1_000_000 }, speed: 1_000_000, height: 1_000_000 };
    apply_actions(&mut state, only(true, false, false, false));
    let mut frames: u32 = 0;
    while state.game.phase == GamePhase::Flying {
        step_active_flight(&mut state, 24_000);
        frames += 1;
        assert!(frames <= 601);
    }
    assert_eq!(frames, 601);
    assert_eq!(state.game.phase, GamePhase::Failed);
    assert_eq!(state.game.status, Status::TimedOut);
    assert_eq!(state.game.trail.len(), 1 + 14_401);
}

#[test]
fn status_setters_name_the_current_level() {
    let mut state = session(vec![level("A", far())]);
    state.set_loaded_status();
    assert_eq!(state.game.status, Status::Loaded { code: "A" });
    state.set_moved_status();
    assert_eq!(state.game.status, Status::Moved { code: "A" });
    state.set_advanced_status();
    assert_eq!(state.game.status, Status::Advanced { code: "A" });
    state.config.speed = 1;
    state.load_current_level_defaults();
    assert_eq!(state.config, launch_up());
    assert_eq!(state.game.status, Status::Reset);
}

fn keys(raise: bool, lower: bool, faster: bool, slower: bool) -> HeldKeys {
    HeldKeys { mouse_button: false, raise, lower, faster, slower }
}

#[test]
fn held_keys_move_height_and_speed() {
    let mut config = launch_up();
    // A tenth of a second: 9 m of height, 14 m/s of speed.
    apply_keyboard_adjustments(&mut config, keys(true, false, true, false), 24_000);
    assert_eq!(config.height, 11_000_000);
    assert_eq!(config.speed, 24_000_000);
    assert_eq!(config.heading, launch_up().heading);
    apply_keyboard_adjustments(&mut config, keys(false, true, false, true), 12_000);
    assert_eq!(config.height, 6_500_000);
    assert_eq!(config.speed, 17_000_000);
    apply_keyboard_adjustments(&mut config, keys(true, true, true, true), 24_000);
    assert_eq!(config.height, 6_500_000);
    assert_eq!(config.speed, 17_000_000);
}

#[test]
fn held_keys_are_ignored_while_the_mouse_button_is_held() {
    let mut config = launch_up();
    let held = HeldKeys { mouse_button: true, raise: true, lower: false, faster: true, slower: false };
    apply_keyboard_adjustments(&mut config, held, 24_000);
    assert_eq!(config, launch_up());
}

#[test]
fn settings_are_held_within_the_controls_bounds() {
    let mut config = launch_up();
    apply_keyboard_adjustments(&mut config, keys(false, true, false, true), 240_000);
    assert_eq!(config.height, 0);
    assert_eq!(config.speed, 5_000_000);
    apply_keyboard_adjustments(&mut config, keys(true, false, true, false), u32::MAX);
    assert_eq!(config.height, 400_000_000);
    assert_eq!(config.speed, 500_000_000);
    let mut wild = launch_up();
    wild.speed = i64::MAX;
    wild.height = i64::MIN;
    apply_keyboard_adjustments(&mut wild, keys(false, false, false, false), 0);
    assert_eq!(wild.speed, 500_000_000);
    assert_eq!(wild.height, 0);
    assert!(wild.is_valid());
}

#[test]
fn next_level_is_offered_after_a_success_with_a_level_to_go() {
    let mut state = session(vec![level("A", near()), level("B", near())]);
    assert!(!state.next_level_offered());
    apply_actions(&mut state, only(true, false, false, false));
    assert!(!state.next_level_offered());
    step_active_flight(&mut state, 1_000);
    assert!(state.next_level_offered());
    apply_actions(&mut state, only(false, false, false, true));
    assert!(!state.next_level_offered());
    apply_actions(&mut state, only(true, false, false, false));
    step_active_flight(&mut state, 1_000);
    assert_eq!(state.game.phase, GamePhase::Success);
    assert!(!state.next_level_offered());
}

#[test]
fn validity_of_a_session() {
    let mut state = session(vec![level("A", near()), level("B", near())]);
    assert!(state.is_valid());
    state.current_level_idx = 1;
    assert!(!state.is_valid());
    state.highest_unlocked_level = 1;
    assert!(state.is_valid());
    state.highest_unlocked_level = 2;
    assert!(!state.is_valid());
    state.highest_unlocked_level = 1;
    state.game.phase = GamePhase::Flying;
    assert!(!state.is_valid());
    state.game.shot = Some(launch_projectile(launch_up()));
    assert!(state.is_valid());
    state.game.phase = GamePhase::Failed;
    assert!(!state.is_valid());
    state.game.shot = None;
    state.game.paused = true;
    assert!(!state.is_valid());
    state.game.paused = false;
    state.sim_speed = -1;
    assert!(!state.is_valid());
    state.sim_speed = 1_000_000;
    state.levels[1].target.radius = -1;
    assert!(!state.is_valid());
}
