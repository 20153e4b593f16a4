use arcade::breakout::{
    on_collision, ResponseEffects, brick_layout, move_paddle, paddle_collider, Arena, Ball, BrickType, Collider, Speed, WallLocation,
};
use arcade::collision::Velocity;
use arcade::geometry::{Aabb, Point};

fn ball(x: i32, y: i32, vx: i32, vy: i32) -> Ball {
    Ball { center: Point { x, y }, velocity: Velocity { x: vx, y: vy } }
}

fn brick(x: i32, y: i32, hw: u32, hh: u32, t: BrickType) -> Collider {
    Collider { bounds: Aabb { center: Point { x, y }, half_w: hw, half_h: hh }, brick: Some(t) }
}

fn arena(balls: Vec<Ball>, colliders: Vec<Collider>) -> Arena {
    Arena { balls, colliders, score: 0, speed: Speed::default() }
}

#[test]
fn scoring_brick_hit_scores_and_removes_the_brick() {
    let mut a = arena(vec![ball(100, 100, 1, -1)], vec![brick(100, 110, 50, 15, BrickType::Normal)]);
    assert!(a.check_for_collisions());
    assert_eq!(a.score, 1);
    assert!(a.colliders.is_empty());
    assert_eq!(a.balls.len(), 1);
    assert_eq!(a.speed, Speed::default());
}

#[test]
fn extra_ball_brick_spawns_exactly_one_ball() {
    let mut a = arena(vec![ball(100, 100, 1, -1)], vec![brick(100, 110, 50, 15, BrickType::ExtraBall)]);
    assert!(a.check_for_collisions());
    assert_eq!(a.score, 1);
    assert!(a.colliders.is_empty());
    assert_eq!(a.balls.len(), 2);
    assert_eq!(a.balls[1], Ball::launch());
    assert_eq!(a.balls[1], ball(0, -50, 1, -1));
}

#[test]
fn speed_bricks_compound_the_speed() {
    let mut a = arena(vec![ball(100, 100, 1, -1)], vec![]);
    let n: u64 = 10;
    for _ in 0..n {
        a.colliders.push(brick(100, 110, 50, 15, BrickType::Speed));
        assert!(a.check_for_collisions());
        assert!(a.colliders.is_empty());
    }
    assert_eq!(a.score, n);
    assert_eq!(a.speed.initial, 400);
    assert_eq!(a.speed.boosts, n);
    let value = a.speed.initial as f64 * (105.0f64 / 100.0).powi(a.speed.boosts as i32);
    assert!((value - 400.0 * 1.05f64.powi(n as i32)).abs() < 1e-9);
}

#[test]
fn speed_boost_multiplies_once() {
    let mut s = Speed::default();
    assert_eq!(s.initial, 400);
    assert_eq!(s.boosts, 0);
    s.boost();
    s.boost();
    assert_eq!(s, Speed { initial: 400, boosts: 2 });
}

#[test]
fn wall_hit_reflects_without_scoring() {
    let wall = WallLocation::Left.collider();
    let mut a = arena(vec![ball(-780, 0, -1, 1)], vec![wall]);
    assert!(a.check_for_collisions());
    assert_eq!(a.score, 0);
    assert_eq!(a.colliders, vec![wall]);
    assert_eq!(a.balls, vec![ball(-780, 0, 1, 1)]);
}

#[test]
fn no_contact_changes_nothing() {
    let b = brick(0, 300, 50, 15, BrickType::Speed);
    let mut a = arena(vec![ball(0, 0, 3, 4)], vec![b]);
    assert!(!a.check_for_collisions());
    assert_eq!(a.score, 0);
    assert_eq!(a.colliders, vec![b]);
    assert_eq!(a.balls, vec![ball(0, 0, 3, 4)]);
    assert_eq!(a.speed.boosts, 0);
}

#[test]
fn two_balls_on_one_brick_score_twice() {
    let mut a = arena(
        vec![ball(90, 100, 1, 1), ball(110, 100, -1, 1)],
        vec![brick(100, 110, 50, 15, BrickType::Normal)],
    );
    assert!(a.check_for_collisions());
    assert_eq!(a.score, 2);
    assert!(a.colliders.is_empty());
}

#[test]
fn second_overlap_in_a_pass_does_not_reflect_back() {
    let left = brick(-10, 0, 10, 10, BrickType::Normal);
    let right = brick(10, 0, 10, 10, BrickType::Normal);
    let wall = WallLocation::Top.collider();
    let mut a = arena(vec![ball(0, -20, 1, 2)], vec![left, wall, right]);
    assert!(a.check_for_collisions());
    assert_eq!(a.balls, vec![ball(0, -20, 1, -2)]);
    assert_eq!(a.score, 2);
    assert_eq!(a.colliders, vec![wall]);
}

#[test]
fn walls_have_their_places_and_sizes() {
    assert_eq!(WallLocation::Left.position(), Point { x: -800, y: 0 });
    assert_eq!(WallLocation::Right.position(), Point { x: 800, y: 0 });
    assert_eq!(WallLocation::Bottom.position(), Point { x: 0, y: -450 });
    assert_eq!(WallLocation::Top.position(), Point { x: 0, y: 400 });
    assert_eq!(WallLocation::Left.size(), (10, 860));
    assert_eq!(WallLocation::Top.size(), (1610, 10));
    let c = WallLocation::Right.collider();
    assert_eq!(c.bounds, Aabb { center: Point { x: 800, y: 0 }, half_w: 5, half_h: 430 });
    assert_eq!(c.brick, None);
}

#[test]
fn paddle_stays_inside_the_arena() {
    assert_eq!(move_paddle(0, 30), 30);
    assert_eq!(move_paddle(700, 100), 725);
    assert_eq!(move_paddle(-700, -100), -725);
    assert_eq!(move_paddle(i32::MAX, i32::MAX), 725);
    let p = paddle_collider(5);
    assert_eq!(p.bounds, Aabb { center: Point { x: 5, y: -390 }, half_w: 60, half_h: 10 });
}

#[test]
fn brick_grid_fills_the_upper_arena() {
    let grid = brick_layout();
    assert_eq!(grid.len(), 14 * 14);
    assert_eq!(grid[0], Point { x: -683, y: -105 });
    assert_eq!(grid[13], Point { x: 682, y: -105 });
    assert_eq!(grid[14], Point { x: -683, y: -70 });
    assert_eq!(grid[195], Point { x: 682, y: 350 });
}

#[test]
fn brick_type_follows_the_roll() {
    assert_eq!(BrickType::from_roll(0), BrickType::Normal);
    assert_eq!(BrickType::from_roll(3_006_477_106), BrickType::Normal);
    assert_eq!(BrickType::from_roll(3_006_477_107), BrickType::Speed);
    assert_eq!(BrickType::from_roll(3_865_470_565), BrickType::Speed);
    assert_eq!(BrickType::from_roll(3_865_470_566), BrickType::ExtraBall);
    assert_eq!(BrickType::from_roll(u32::MAX - 1), BrickType::ExtraBall);
    assert_eq!(BrickType::from_roll(u32::MAX), BrickType::Normal);
}

#[test]
fn brick_weights_and_default() {
    assert_eq!(BrickType::weights(), vec![7, 2, 1]);
    assert_eq!(BrickType::default(), BrickType::Normal);
    let t = BrickType::random();
    assert!(matches!(t, BrickType::Normal | BrickType::Speed | BrickType::ExtraBall));
}

#[test]
fn effects_depend_on_the_obstacle() {
    let none = ResponseEffects { despawn_obstacle: false, points: 0, speed_up: false, spawn_ball: false };
    assert_eq!(on_collision(None), none);
    assert_eq!(
        on_collision(Some(BrickType::Normal)),
        ResponseEffects { despawn_obstacle: true, points: 1, speed_up: false, spawn_ball: false }
    );
    assert_eq!(
        on_collision(Some(BrickType::Speed)),
        ResponseEffects { despawn_obstacle: true, points: 1, speed_up: true, spawn_ball: false }
    );
    assert_eq!(
        on_collision(Some(BrickType::ExtraBall)),
        ResponseEffects { despawn_obstacle: true, points: 1, speed_up: false, spawn_ball: true }
    );
}
