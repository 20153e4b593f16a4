use arcade::collision::{ball_collision, detect, respond, CollisionEvent, Side, Velocity};
use arcade::geometry::{Aabb, BoundingCircle, Point, Probe};

fn circle(x: i32, y: i32, r: u32) -> BoundingCircle {
    BoundingCircle { center: Point { x, y }, radius: r }
}

fn unit_box() -> Aabb {
    Aabb { center: Point { x: 0, y: 0 }, half_w: 10, half_h: 10 }
}

fn side_of(c: BoundingCircle) -> Option<Side> {
    detect(&Probe::Circle(c), c.center, &unit_box())
}

#[test]
fn detect_none_exactly_when_no_overlap() {
    let b = unit_box();
    let cases = [
        circle(-25, 0, 10),
        circle(-20, 0, 10),
        circle(18, 18, 10),
        circle(0, 0, 1),
        circle(100, -100, 50),
        circle(5, 30, 19),
        circle(5, 30, 20),
    ];
    for c in cases {
        let hit = b.intersects_circle(&c);
        assert_eq!(detect(&Probe::Circle(c), c.center, &b).is_none(), !hit);
    }
    assert!(side_of(circle(-25, 0, 10)).is_none());
    assert!(side_of(circle(-20, 0, 10)).is_some());
}

#[test]
fn hit_from_the_left_is_left() {
    assert_eq!(side_of(circle(-15, 0, 10)), Some(Side::Left));
    assert_eq!(side_of(circle(-19, 3, 10)), Some(Side::Left));
}

#[test]
fn hit_from_the_right_is_right() {
    assert_eq!(side_of(circle(15, 0, 10)), Some(Side::Right));
    assert_eq!(side_of(circle(19, -3, 10)), Some(Side::Right));
}

#[test]
fn hit_from_above_is_top() {
    assert_eq!(side_of(circle(0, 15, 10)), Some(Side::Top));
    assert_eq!(side_of(circle(-4, 19, 10)), Some(Side::Top));
}

#[test]
fn hit_from_below_is_bottom() {
    assert_eq!(side_of(circle(0, -15, 10)), Some(Side::Bottom));
    assert_eq!(side_of(circle(4, -19, 10)), Some(Side::Bottom));
}

#[test]
fn corner_tie_goes_vertical() {
    // Offsets of equal magnitude from each corner.
    assert_eq!(side_of(circle(13, 13, 5)), Some(Side::Top));
    assert_eq!(side_of(circle(-13, 13, 5)), Some(Side::Top));
    assert_eq!(side_of(circle(13, -13, 5)), Some(Side::Bottom));
    assert_eq!(side_of(circle(-13, -13, 5)), Some(Side::Bottom));
}

#[test]
fn center_inside_the_box_is_bottom() {
    assert_eq!(side_of(circle(3, 4, 5)), Some(Side::Bottom));
}

#[test]
fn degenerate_shapes_never_intersect() {
    let b = unit_box();
    assert!(!b.intersects_circle(&circle(0, 0, 0)));
    assert_eq!(side_of(circle(0, 0, 0)), None);
    let flat = Aabb { center: Point { x: 0, y: 0 }, half_w: 10, half_h: 0 };
    assert!(!flat.intersects_circle(&circle(0, 0, 5)));
    assert!(!flat.intersects_box(&b));
    assert!(!b.intersects_box(&flat));
}

#[test]
fn closest_point_clamps_each_axis() {
    let b = unit_box();
    assert_eq!(b.closest_point(Point { x: -30, y: 4 }), Point { x: -10, y: 4 });
    assert_eq!(b.closest_point(Point { x: 30, y: 40 }), Point { x: 10, y: 10 });
    assert_eq!(b.closest_point(Point { x: 2, y: 3 }), Point { x: 2, y: 3 });
    let far = Aabb { center: Point { x: i32::MAX, y: i32::MIN }, half_w: u32::MAX, half_h: u32::MAX };
    assert_eq!(far.closest_point(Point { x: 0, y: 0 }), Point { x: 0, y: 0 });
    let corner = Aabb { center: Point { x: i32::MAX, y: i32::MIN }, half_w: 1, half_h: 1 };
    assert_eq!(corner.closest_point(Point { x: 0, y: 0 }), Point { x: i32::MAX - 1, y: i32::MIN + 1 });
}

#[test]
fn extreme_coordinates_do_not_overflow() {
    let b = Aabb { center: Point { x: i32::MIN, y: i32::MIN }, half_w: 1, half_h: 1 };
    let c = circle(i32::MAX, i32::MAX, u32::MAX);
    assert!(!b.intersects_circle(&c));
    assert_eq!(detect(&Probe::Circle(c), c.center, &b), None);
}

#[test]
fn boxes_touching_at_an_edge_overlap() {
    let a = unit_box();
    let touching = Aabb { center: Point { x: 20, y: 0 }, half_w: 10, half_h: 10 };
    let apart = Aabb { center: Point { x: 21, y: 0 }, half_w: 10, half_h: 10 };
    assert!(a.intersects_box(&touching));
    assert!(!a.intersects_box(&apart));
    assert_eq!(detect(&Probe::Rect(touching), touching.center, &a), Some(Side::Right));
    assert_eq!(detect(&Probe::Rect(apart), apart.center, &a), None);
}

#[test]
fn ball_collision_uses_the_ball_center() {
    let c = circle(0, 20, 12);
    assert_eq!(ball_collision(&c, &unit_box()), Some(Side::Top));
    assert_eq!(ball_collision(&circle(0, 30, 12), &unit_box()), None);
}

#[test]
fn left_hit_moving_away_is_not_reflected() {
    let v = Velocity { x: -3, y: 7 };
    assert_eq!(respond(Side::Left, v), v);
    let still = Velocity { x: 0, y: -2 };
    assert_eq!(respond(Side::Left, still), still);
}

#[test]
fn left_hit_moving_in_is_reflected_exactly() {
    assert_eq!(respond(Side::Left, Velocity { x: 5, y: -9 }), Velocity { x: -5, y: -9 });
    assert_eq!(respond(Side::Left, Velocity { x: i32::MAX, y: 1 }), Velocity { x: -i32::MAX, y: 1 });
}

#[test]
fn other_sides_reflect_only_when_moving_in() {
    assert_eq!(respond(Side::Right, Velocity { x: -4, y: 2 }), Velocity { x: 4, y: 2 });
    assert_eq!(respond(Side::Right, Velocity { x: 4, y: 2 }), Velocity { x: 4, y: 2 });
    assert_eq!(respond(Side::Top, Velocity { x: 1, y: -6 }), Velocity { x: 1, y: 6 });
    assert_eq!(respond(Side::Top, Velocity { x: 1, y: 6 }), Velocity { x: 1, y: 6 });
    assert_eq!(respond(Side::Bottom, Velocity { x: 1, y: 6 }), Velocity { x: 1, y: -6 });
    assert_eq!(respond(Side::Bottom, Velocity { x: 1, y: -6 }), Velocity { x: 1, y: -6 });
}

#[test]
fn collision_event_is_taken_once() {
    let mut ev = CollisionEvent::new();
    assert!(!ev.play_collision_sound());
    ev.write();
    ev.write();
    assert!(ev.play_collision_sound());
    assert!(!ev.play_collision_sound());
}
