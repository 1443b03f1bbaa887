use parabolic_rust::ballistics::{
    flight_time_and_range, sample_trajectory, trajectory_at_time, velocity_components,
    BallisticsError, LaunchInputs,
};
use parabolic_rust::fixed::isqrt;
use parabolic_rust::geometry::Heading;
use parabolic_rust::window::axis_bounds;

fn fixed(value: f64) -> i64 {
    (value * 1_000_000.0).round() as i64
}

fn metres(value: i64) -> f64 {
    value as f64 / 1_000_000.0
}

fn seconds(ticks: i64) -> f64 {
    ticks as f64 / 240_000.0
}

fn inputs(angle_deg: f64, speed_mps: f64, height_m: f64) -> LaunchInputs {
    let theta = angle_deg.to_radians();
    LaunchInputs {
        heading: Heading { cos: fixed(theta.cos()), sin: fixed(theta.sin()) },
        speed: fixed(speed_mps),
        height: fixed(height_m),
    }
}

fn assert_close(actual: f64, expected: f64, tolerance: f64) {
    assert!(
        (actual - expected).abs() <= tolerance,
        "actual={actual}, expected={expected}, tolerance={tolerance}"
    );
}

#[test]
fn computes_known_range_for_flat_ground() {
    let launch = inputs(45.0, 10.0, 0.0);
    assert!(launch.is_valid());
    let (time, distance) = flight_time_and_range(launch).expect("calculation should succeed");

    assert_close(seconds(time), 1.4431, 0.001);
    assert_close(metres(distance), 10.2041, 0.001);
}

#[test]
fn zero_velocity_has_zero_range() {
    let launch = inputs(10.0, 0.0, 2.0);
    assert!(launch.is_valid());
    let (time, distance) = flight_time_and_range(launch).expect("calculation should succeed");

    assert_close(seconds(time), 0.6389, 0.001);
    assert_close(metres(distance), 0.0, 0.0001);
}

#[test]
fn rejects_impossible_landing_time() {
    let launch = inputs(0.0, 1.0, -10.0);
    assert!(launch.is_valid());
    let err = flight_time_and_range(launch).expect_err("calculation should fail");

    assert!(err.message().contains("No real landing time"));
}

#[test]
fn sampled_trajectory_starts_and_ends_at_expected_points() {
    let launch = inputs(45.0, 30.0, 1.5);
    assert!(launch.is_valid());
    let (time, _) = flight_time_and_range(launch).expect("calculation should succeed");
    let points = sample_trajectory(launch, time, 100);

    let first = points.first().copied().expect("has first point");
    let last = points.last().copied().expect("has last point");
    assert_close(metres(first.0), 0.0, 1e-9);
    assert_close(metres(first.1), 1.5, 1e-9);
    assert_close(metres(last.1), 0.0, 0.01);
}

#[test]
fn plot_window_keeps_x_origin_on_left() {
    let launch = inputs(60.0, 25.0, 10.0);
    assert!(launch.is_valid());
    let (time, _) = flight_time_and_range(launch).expect("calculation should succeed");
    let points = sample_trajectory(launch, time, 100);
    let ((x_min, x_max), _) = axis_bounds(&points);

    assert_close(metres(x_min), 0.0, 1e-9);
    assert!(metres(x_max) > 0.0);
}

#[test]
fn plot_window_keeps_ground_on_bottom() {
    let launch = inputs(45.0, 20.0, 3.0);
    assert!(launch.is_valid());
    let (time, _) = flight_time_and_range(launch).expect("calculation should succeed");
    let points = sample_trajectory(launch, time, 100);
    let (_, (y_min, y_max)) = axis_bounds(&points);

    assert_close(metres(y_min), 0.0, 1e-9);
    assert!(metres(y_max) > 0.0);
}

#[test]
fn velocity_components_follow_the_heading() {
    let launch = LaunchInputs {
        heading: Heading { cos: 600_000, sin: -800_000 },
        speed: 10_000_000,
        height: 0,
    };
    assert_eq!(velocity_components(launch), (6_000_000, -8_000_000));
}

#[test]
fn velocity_components_round_down() {
    let launch = LaunchInputs { heading: Heading { cos: 600_000, sin: -800_000 }, speed: 7, height: 0 };
    assert!(launch.is_valid());
    assert_eq!(velocity_components(launch), (4, -6));
}

#[test]
fn trajectory_at_time_is_the_parabola() {
    let launch = LaunchInputs {
        heading: Heading { cos: 600_000, sin: 800_000 },
        speed: 10_000_000,
        height: 2_000_000,
    };
    // One second: x = 6 m, y = 2 + 8 - 4.9 = 5.1 m.
    assert_eq!(trajectory_at_time(launch, 240_000), (6_000_000, 5_100_000));
    assert_eq!(trajectory_at_time(launch, 0), (0, 2_000_000));
    // Half a second before the launch: x = -3 m, y = 2 - 4 - 1.225 m.
    assert_eq!(trajectory_at_time(launch, -120_000), (-3_000_000, -3_225_000));
}

#[test]
fn flight_time_and_range_exact_values() {
    // Straight up at 9.8 m/s from the ground: back after two seconds.
    let launch = LaunchInputs {
        heading: Heading { cos: 0, sin: 1_000_000 },
        speed: 9_800_000,
        height: 0,
    };
    assert_eq!(flight_time_and_range(launch), Ok((480_000, 0)));
    // Level at 3 m/s from 4.9 m: lands after one second, 3 m out.
    let level = LaunchInputs {
        heading: Heading { cos: 1_000_000, sin: 0 },
        speed: 3_000_000,
        height: 4_900_000,
    };
    assert_eq!(flight_time_and_range(level), Ok((240_000, 3_000_000)));
}

#[test]
fn negative_speed_is_rejected() {
    let launch = LaunchInputs { heading: Heading { cos: 1_000_000, sin: 0 }, speed: -1, height: 0 };
    let err = flight_time_and_range(launch).expect_err("negative speed");
    assert_eq!(err, BallisticsError::NegativeSpeed);
    assert_eq!(err.message(), "Velocity cannot be negative.");
}

#[test]
fn launch_too_far_below_ground_is_rejected() {
    let launch = inputs(0.0, 1.0, -10.0);
    assert_eq!(flight_time_and_range(launch), Err(BallisticsError::NoRealLandingTime));
    assert_eq!(
        BallisticsError::NoRealLandingTime.message(),
        "No real landing time: vy^2 + 2*g*h is negative."
    );
}

#[test]
fn landing_before_the_launch_is_rejected() {
    // Downwards from below ground level: the parabola crossed the ground
    // only before the launch.
    let launch = inputs(-80.0, 20.0, -1.0);
    assert!(launch.is_valid());
    let err = flight_time_and_range(launch).expect_err("lands before launch");
    assert_eq!(err, BallisticsError::NegativeLandingTime);
    assert_eq!(err.message(), "Landing time computed as negative. Check your inputs.");
}

#[test]
fn sample_trajectory_has_at_least_two_intervals() {
    let launch = inputs(45.0, 30.0, 1.5);
    assert_eq!(sample_trajectory(launch, 240_000, 0).len(), 3);
    assert_eq!(sample_trajectory(launch, 240_000, 1).len(), 3);
    assert_eq!(sample_trajectory(launch, 240_000, 2).len(), 3);
    assert_eq!(sample_trajectory(launch, 240_000, 7).len(), 8);
}

#[test]
fn sample_trajectory_points_lie_on_the_path() {
    let launch = inputs(30.0, 12.0, 0.5);
    let points = sample_trajectory(launch, 300_000, 4);
    assert_eq!(points.len(), 5);
    for (i, point) in points.iter().enumerate() {
        let t = (i as i64) * 300_000 / 4;
        assert_eq!(*point, trajectory_at_time(launch, t));
    }
}

#[test]
fn isqrt_is_the_floor_of_the_root() {
    assert_eq!(isqrt(0), 0);
    assert_eq!(isqrt(1), 1);
    assert_eq!(isqrt(3), 1);
    assert_eq!(isqrt(4), 2);
    assert_eq!(isqrt(99), 9);
    assert_eq!(isqrt(100), 10);
    assert_eq!(isqrt(1_000_000_000_000), 1_000_000);
    assert_eq!(isqrt(u128::MAX), 0xFFFF_FFFF_FFFF_FFFF);
}

#[test]
fn invalid_inputs_are_recognised() {
    let mut launch = inputs(45.0, 10.0, 0.0);
    assert!(launch.is_valid());
    launch.heading.cos = 1_000_001;
    assert!(!launch.is_valid());
    launch.heading.cos = 0;
    assert!(!launch.is_valid());
    launch.heading.sin = 1_000_000;
    assert!(launch.is_valid());
    launch.height = 1_000_000_000_001;
    assert!(!launch.is_valid());
    launch.height = -1_000_000_000_000;
    launch.speed = -1_000_000_000_000;
    assert!(launch.is_valid());
}
