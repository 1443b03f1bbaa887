use parabolic_rust::geometry::{Rect, Vec2};
use parabolic_rust::model::{
    Barrier, BounceSurface, Environment, LaunchConfig, Level, Prediction, Projectile, StepOutcome,
    Target,
};
use parabolic_rust::geometry::Heading;
use parabolic_rust::window::{
    axis_bounds, compute_world_window, fixed_ratio_axis_window_f32, fixed_ratio_axis_window_f64,
};

#[test]
fn wide_extent_sets_the_height() {
    // 100 m by 10 m: padded to 106 by 11; the height grows to half the width.
    assert_eq!(fixed_ratio_axis_window_f64(100_000_000, 10_000_000), (106_000_000, 53_000_000));
}

#[test]
fn tall_extent_sets_the_width() {
    // 10 m by 100 m: padded to 10.6 by 110; the width grows to twice the height.
    assert_eq!(fixed_ratio_axis_window_f64(10_000_000, 100_000_000), (220_000_000, 110_000_000));
}

#[test]
fn empty_extent_gives_the_smallest_window() {
    assert_eq!(fixed_ratio_axis_window_f64(0, 0), (2_000_000, 1_000_000));
    assert_eq!(fixed_ratio_axis_window_f64(-5_000_000, i64::MIN), (2_000_000, 1_000_000));
}

#[test]
fn small_extents_are_padded_from_one_unit() {
    // 0.5 m is padded by 6 % of one metre, then floored to one metre.
    assert_eq!(fixed_ratio_axis_window_f64(500_000, 3_000_000), (6_600_000, 3_300_000));
}

#[test]
fn odd_width_is_widened_to_an_even_one() {
    let (x, y) = fixed_ratio_axis_window_f64(100_000_001, 0);
    assert_eq!((x, y), (106_000_002, 53_000_001));
}

#[test]
fn window_ratio_is_exactly_two() {
    let samples: [(i64, i64); 6] = [
        (1, 1),
        (123_456_789, 987_654),
        (987_654, 123_456_789),
        (4_000_000_000_000_000_000, 4_000_000_000_000_000_000),
        (2_000_000, 1_000_000),
        (77_777_777, 38_888_888),
    ];
    for (raw_x, raw_y) in samples {
        let (x, y) = fixed_ratio_axis_window_f64(raw_x, raw_y);
        assert_eq!(x, 2 * y);
        let padded_x = (raw_x as i128 + (raw_x.max(1_000_000) as i128 * 6).div_euclid(100)).max(1_000_000);
        let padded_y = (raw_y as i128 + (raw_y.max(1_000_000) as i128 * 10).div_euclid(100)).max(1_000_000);
        assert!(x as i128 >= padded_x);
        assert!(y as i128 >= padded_y);
    }
}

#[test]
fn narrow_window_counts_in_thousandths() {
    assert_eq!(fixed_ratio_axis_window_f32(100_000, 10_000), (106_000, 53_000));
    assert_eq!(fixed_ratio_axis_window_f32(10_000, 100_000), (220_000, 110_000));
    assert_eq!(fixed_ratio_axis_window_f32(0, -3), (2_000, 1_000));
    assert_eq!(fixed_ratio_axis_window_f32(900_000_000, 900_000_000), (1_980_000_000, 990_000_000));
}

#[test]
fn axis_bounds_start_at_the_origin() {
    let points = vec![(0, 1_500_000), (50_000_000, 20_000_000), (100_000_000, -3)];
    assert_eq!(axis_bounds(&points), ((0, 106_000_000), (0, 53_000_000)));
    let none: Vec<(i64, i64)> = Vec::new();
    assert_eq!(axis_bounds(&none), ((0, 2_000_000), (0, 1_000_000)));
}

fn level() -> Level {
    Level {
        code: "TEST",
        title: "Window",
        level_in_environment: 1,
        environment: Environment { name: "Test", gravity: 9_800_000, wind_accel_x: 0, drag_linear: 0 },
        target: Target { center: Vec2 { x: 50_000_000, y: 10_000_000 }, radius: 5_000_000 },
        bounce_surface: None,
        barriers: vec![],
        required_bounces: 0,
        default_launch: LaunchConfig {
            heading: Heading { cos: 1_000_000, sin: 0 },
            speed: 10_000_000,
            height: 0,
        },
    }
}

fn prediction(points: Vec<Vec2>, range: i64) -> Prediction {
    Prediction { points, range, flight_time: 0, bounces: 0, outcome: StepOutcome::HitGround }
}

#[test]
fn world_window_covers_the_target() {
    let level = level();
    assert!(level.is_valid());
    let config = level.default_launch;
    let p = prediction(vec![Vec2 { x: 0, y: 0 }], 0);
    // Extents: target's right edge 55 m, target's top 15 m.
    assert_eq!(
        compute_world_window(&level, config, &p, None),
        fixed_ratio_axis_window_f64(55_000_000, 15_000_000)
    );
}

#[test]
fn world_window_covers_path_surface_barriers_and_shot() {
    let mut level = level();
    level.bounce_surface = Some(BounceSurface {
        corners: [
            Vec2 { x: 60_000_000, y: 30_000_000 },
            Vec2 { x: 70_000_000, y: 30_000_000 },
            Vec2 { x: 70_000_000, y: 25_000_000 },
            Vec2 { x: 60_000_000, y: 25_000_000 },
        ],
        restitution: 800_000,
    });
    assert!(level.is_valid());
    let mut config = level.default_launch;
    let p = prediction(vec![Vec2 { x: 0, y: 0 }, Vec2 { x: 5_000_000, y: 12_000_000 }], 66_000_000);
    assert_eq!(
        compute_world_window(&level, config, &p, None),
        fixed_ratio_axis_window_f64(70_000_000, 30_000_000)
    );
    level.barriers.push(Barrier { rect: Rect { x: 80_000_000, y: 0, w: 5_000_000, h: 40_000_000 } });
    assert_eq!(
        compute_world_window(&level, config, &p, None),
        fixed_ratio_axis_window_f64(85_000_000, 40_000_000)
    );
    let shot = Projectile {
        position: Vec2 { x: 90_000_000, y: 45_000_000 },
        velocity: Vec2 { x: 0, y: 0 },
        elapsed: 0,
        bounces: 0,
    };
    assert_eq!(
        compute_world_window(&level, config, &p, Some(shot)),
        fixed_ratio_axis_window_f64(90_000_000, 45_000_000)
    );
    config.height = 50_000_000;
    assert_eq!(
        compute_world_window(&level, config, &p, Some(shot)),
        fixed_ratio_axis_window_f64(90_000_000, 50_000_000)
    );
    let high = prediction(vec![Vec2 { x: 0, y: 60_000_000 }], 95_000_000);
    assert_eq!(
        compute_world_window(&level, config, &high, Some(shot)),
        fixed_ratio_axis_window_f64(95_000_000, 60_000_000)
    );
}
