use parabolic_rust::status::Status;

#[test]
fn plain_statuses_in_words() {
    assert_eq!(Status::Ready.message(), "Ready");
    assert_eq!(Status::ShotLaunched.message(), "Shot launched");
    assert_eq!(Status::Paused.message(), "Paused");
    assert_eq!(Status::Resumed.message(), "Resumed");
    assert_eq!(Status::Reset.message(), "Reset");
    assert_eq!(Status::BarrierCollision.message(), "Missed target: barrier collision");
    assert_eq!(Status::TimedOut.message(), "Missed target: timed out");
}

#[test]
fn level_statuses_name_the_level() {
    assert_eq!(Status::Loaded { code: "EARTH 1" }.message(), "Loaded EARTH 1");
    assert_eq!(Status::Moved { code: "MOON 3" }.message(), "Moved to MOON 3");
    assert_eq!(Status::Advanced { code: "EARTH 2" }.message(), "Advanced to EARTH 2");
    assert_eq!(Status::Loaded { code: "" }.message(), "Loaded ");
}

#[test]
fn target_hit_reports_time_and_bounces() {
    let hit = Status::TargetHit { elapsed: 346_000, bounces: 2, next_unlocked: true };
    assert_eq!(hit.message(), "Target hit in 1.44s with 2 bounce(s) | Next level unlocked (N)");
    let last = Status::TargetHit { elapsed: 14_400_000, bounces: 0, next_unlocked: false };
    assert_eq!(last.message(), "Target hit in 60.00s with 0 bounce(s) | Campaign complete");
}

#[test]
fn ground_hit_reports_place_and_bounces() {
    let miss = Status::HitGround { x: 10_204_088, bounces: 0 };
    assert_eq!(miss.message(), "Missed target: hit ground at x=10.20 m after 0 bounce(s)");
    let far = Status::HitGround { x: 1_234_567_890_000, bounces: 4_294_967_295 };
    assert_eq!(far.message(), "Missed target: hit ground at x=1000000.00 m after 4294967295 bounce(s)");
    let edge = Status::HitGround { x: 1_000_000_000_000, bounces: 10 };
    assert_eq!(edge.message(), "Missed target: hit ground at x=1000000.00 m after 10 bounce(s)");
}

#[test]
fn hundredths_round_to_nearest_with_halves_up() {
    let text = |elapsed: i64| Status::TargetHit { elapsed, bounces: 1, next_unlocked: false }.message();
    assert_eq!(text(0), "Target hit in 0.00s with 1 bounce(s) | Campaign complete");
    assert_eq!(text(1_199), "Target hit in 0.00s with 1 bounce(s) | Campaign complete");
    assert_eq!(text(1_200), "Target hit in 0.01s with 1 bounce(s) | Campaign complete");
    assert_eq!(text(238_799), "Target hit in 0.99s with 1 bounce(s) | Campaign complete");
    assert_eq!(text(238_800), "Target hit in 1.00s with 1 bounce(s) | Campaign complete");
    assert_eq!(text(2_424_000), "Target hit in 10.10s with 1 bounce(s) | Campaign complete");
    assert_eq!(text(-5), "Target hit in 0.00s with 1 bounce(s) | Campaign complete");
    let place = |x: i64| Status::HitGround { x, bounces: 0 }.message();
    assert_eq!(place(4_999), "Missed target: hit ground at x=0.00 m after 0 bounce(s)");
    assert_eq!(place(5_000), "Missed target: hit ground at x=0.01 m after 0 bounce(s)");
    assert_eq!(place(123_456_789), "Missed target: hit ground at x=123.46 m after 0 bounce(s)");
}
