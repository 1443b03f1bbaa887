use parabolic_rust::geometry::{
    bounce_surface_edges, cross_2d, dot_2d, point_in_polygon, quad_center, rotate_vec,
    segment_intersection, Heading, Rect, Vec2,
};

fn v(x: i64, y: i64) -> Vec2 {
    Vec2 { x, y }
}

fn square() -> [Vec2; 4] {
    [v(0, 0), v(4_000_000, 0), v(4_000_000, 4_000_000), v(0, 4_000_000)]
}

#[test]
fn cross_and_dot_products() {
    assert_eq!(cross_2d(v(2, 3), v(5, 7)), 2 * 7 - 3 * 5);
    assert_eq!(dot_2d(v(2, 3), v(5, 7)), 2 * 5 + 3 * 7);
    assert_eq!(cross_2d(v(1, 0), v(0, 1)), 1);
    assert_eq!(cross_2d(v(0, 1), v(1, 0)), -1);
}

#[test]
fn crossing_segments_meet_at_their_fractions() {
    // A diagonal against a horizontal line at a quarter of its height.
    let hit = segment_intersection(v(0, 0), v(4_000_000, 4_000_000), v(0, 1_000_000), v(4_000_000, 1_000_000));
    assert_eq!(hit, Some((250_000, 250_000)));
}

#[test]
fn crossing_fractions_round_down() {
    let hit = segment_intersection(v(0, 0), v(3_000_000, 3_000_000), v(0, 1_000_000), v(3_000_000, 1_000_000));
    assert_eq!(hit, Some((333_333, 333_333)));
}

#[test]
fn segments_meet_at_their_ends() {
    let hit = segment_intersection(v(0, 0), v(2_000_000, 0), v(2_000_000, -1_000_000), v(2_000_000, 1_000_000));
    assert_eq!(hit, Some((1_000_000, 500_000)));
    let start = segment_intersection(v(0, 0), v(2_000_000, 0), v(0, 0), v(0, 1_000_000));
    assert_eq!(start, Some((0, 0)));
}

#[test]
fn parallel_segments_do_not_meet() {
    assert_eq!(segment_intersection(v(0, 0), v(1_000_000, 0), v(0, 1), v(1_000_000, 1)), None);
    assert_eq!(segment_intersection(v(0, 0), v(1_000_000, 0), v(0, 0), v(1_000_000, 0)), None);
    // Directions whose cross product stays under a millionth of a square metre.
    assert_eq!(segment_intersection(v(0, 0), v(999, 0), v(500, -500), v(500, 500)), None);
    assert_eq!(
        segment_intersection(v(0, 0), v(1000, 0), v(500, -500), v(500, 500)),
        Some((500_000, 500_000))
    );
}

#[test]
fn segments_that_miss_do_not_meet() {
    assert_eq!(
        segment_intersection(v(0, 0), v(1_000_000, 1_000_000), v(2_000_000, 0), v(2_000_000, 5_000_000)),
        None
    );
    assert_eq!(
        segment_intersection(v(0, 0), v(4_000_000, 0), v(1_000_000, 1_000_000), v(1_000_000, 2_000_000)),
        None
    );
}

#[test]
fn point_in_polygon_on_a_square() {
    let corners = square();
    assert!(point_in_polygon(v(2_000_000, 2_000_000), &corners));
    assert!(point_in_polygon(v(1, 1), &corners));
    assert!(!point_in_polygon(v(5_000_000, 2_000_000), &corners));
    assert!(!point_in_polygon(v(-1, 2_000_000), &corners));
    assert!(!point_in_polygon(v(2_000_000, 4_000_001), &corners));
    assert!(!point_in_polygon(v(2_000_000, -1), &corners));
}

#[test]
fn point_in_polygon_on_a_turned_quadrilateral() {
    let diamond = [v(0, 2_000_000), v(2_000_000, 4_000_000), v(4_000_000, 2_000_000), v(2_000_000, 0)];
    assert!(point_in_polygon(v(2_000_000, 2_000_000), &diamond));
    assert!(point_in_polygon(v(1_000_000, 2_500_000), &diamond));
    assert!(!point_in_polygon(v(500_000, 500_000), &diamond));
    assert!(!point_in_polygon(v(3_500_000, 3_500_000), &diamond));
}

#[test]
fn fewer_than_three_corners_enclose_nothing() {
    assert!(!point_in_polygon(v(0, 0), &[]));
    assert!(!point_in_polygon(v(0, 0), &[v(0, 0)]));
    assert!(!point_in_polygon(v(1, 0), &[v(0, -5), v(5, 5)]));
}

#[test]
fn edges_run_in_corner_order_and_wrap() {
    let c = square();
    let edges = bounce_surface_edges(&c);
    assert_eq!(edges, [(c[0], c[1]), (c[1], c[2]), (c[2], c[3]), (c[3], c[0])]);
}

#[test]
fn quad_center_is_the_mean() {
    assert_eq!(quad_center(&square()), v(2_000_000, 2_000_000));
    assert_eq!(quad_center(&[v(1, 1), v(2, 2), v(0, 0), v(0, 0)]), v(0, 0));
    assert_eq!(quad_center(&[v(-1, -5), v(0, 0), v(0, 0), v(0, 0)]), v(-1, -2));
}

#[test]
fn rotate_vec_turns_by_the_heading() {
    let quarter = Heading { cos: 0, sin: 1_000_000 };
    assert_eq!(rotate_vec(v(3_000_000, 1_000_000), quarter), v(-1_000_000, 3_000_000));
    let none = Heading { cos: 1_000_000, sin: 0 };
    assert_eq!(rotate_vec(v(3_000_000, -7), none), v(3_000_000, -7));
    let half = Heading { cos: -1_000_000, sin: 0 };
    assert_eq!(rotate_vec(v(3_000_000, -7), half), v(-3_000_000, 7));
    let turn = Heading { cos: 600_000, sin: 800_000 };
    assert_eq!(rotate_vec(v(10_000_000, 0), turn), v(6_000_000, 8_000_000));
}

#[test]
fn rect_contains_its_border() {
    let r = Rect { x: 10, y: 20, w: 5, h: 7 };
    assert!(r.contains(v(10, 20)));
    assert!(r.contains(v(15, 27)));
    assert!(r.contains(v(12, 23)));
    assert!(!r.contains(v(9, 23)));
    assert!(!r.contains(v(16, 23)));
    assert!(!r.contains(v(12, 19)));
    assert!(!r.contains(v(12, 28)));
}

#[test]
fn validity_is_the_stored_range() {
    assert!(v(1_000_000_000_000, -1_000_000_000_000).is_valid());
    assert!(!v(1_000_000_000_001, 0).is_valid());
    assert!(!v(0, -1_000_000_000_001).is_valid());
    assert!(Heading { cos: -1_000_000, sin: 1_000_000 }.is_valid());
    assert!(!Heading { cos: 0, sin: 1_000_001 }.is_valid());
    assert!(Heading { cos: 600_000, sin: -800_000 }.is_unit());
    assert!(Heading { cos: 707_107, sin: 707_107 }.is_unit());
    assert!(Heading { cos: 0, sin: -1_000_000 }.is_unit());
    assert!(Heading { cos: 1, sin: 1_000_000 }.is_unit());
    assert!(!Heading { cos: 1_000_000, sin: 1_000_000 }.is_unit());
    assert!(!Heading { cos: 0, sin: 0 }.is_unit());
    assert!(!Heading { cos: 600_000, sin: 800_002 }.is_unit());
    assert!(!Heading { cos: 0, sin: 1_000_001 }.is_unit());
    assert!(Rect { x: 0, y: 0, w: -3, h: 1_000_000_000_000 }.is_valid());
    assert!(!Rect { x: 0, y: 0, w: 0, h: 1_000_000_000_001 }.is_valid());
}
