use arcade::asteroids::{calculate_ball_velocity, spawn_ball, spawn_point, window_collision, Bullet, Field, Hazard, Laser, Player};
use arcade::collision::Velocity;
use arcade::geometry::{Aabb, BoundingCircle, Point};

fn hazard(x: i32, y: i32) -> Hazard {
    Hazard { center: Point { x, y } }
}

fn ship(x: i32, y: i32) -> Player {
    Player {
        body: Aabb { center: Point { x, y }, half_w: 10, half_h: 10 },
        velocity: Velocity { x: 3, y: -2 },
    }
}

fn field(players: Vec<Player>, hazards: Vec<Hazard>) -> Field {
    Field { players, hazards, bullets: vec![], lasers: vec![] }
}

#[test]
fn several_hazard_contacts_respawn_the_player_once() {
    let mut f = field(vec![ship(100, 100)], vec![hazard(80, 100), hazard(120, 100), hazard(100, 80), hazard(500, 500)]);
    assert!(f.check_for_ball_collisions());
    assert_eq!(f.players, vec![Player::spawn()]);
    assert!(f.hazards.is_empty());
    let fresh = Player::spawn();
    assert_eq!(fresh.body, Aabb { center: Point { x: 0, y: 0 }, half_w: 10, half_h: 10 });
    assert_eq!(fresh.velocity, Velocity { x: 0, y: 0 });
}

#[test]
fn no_hazard_contact_keeps_everything() {
    let hs = vec![hazard(200, 100), hazard(-200, 100)];
    let mut f = field(vec![ship(100, 100)], hs.clone());
    assert!(!f.check_for_ball_collisions());
    assert_eq!(f.players, vec![ship(100, 100)]);
    assert_eq!(f.hazards, hs);
}

#[test]
fn bullet_removes_only_the_first_hazard_it_touches() {
    let mut f = field(vec![], vec![hazard(0, 0), hazard(10, 0), hazard(300, 0)]);
    f.bullets = vec![
        Bullet { body: BoundingCircle { center: Point { x: 5, y: 0 }, radius: 5 } },
        Bullet { body: BoundingCircle { center: Point { x: -200, y: 0 }, radius: 5 } },
    ];
    assert!(f.check_for_bullet_collisions());
    assert_eq!(f.hazards, vec![hazard(10, 0), hazard(300, 0)]);
    assert_eq!(f.bullets.len(), 1);
    assert_eq!(f.bullets[0].body.center, Point { x: -200, y: 0 });
}

#[test]
fn bullets_in_turn_clear_neighbouring_hazards() {
    let mut f = field(vec![], vec![hazard(0, 0), hazard(10, 0)]);
    let b = Bullet { body: BoundingCircle { center: Point { x: 5, y: 0 }, radius: 5 } };
    f.bullets = vec![b, b, b];
    assert!(f.check_for_bullet_collisions());
    assert!(f.hazards.is_empty());
    assert_eq!(f.bullets, vec![b]);
}

#[test]
fn missing_bullets_report_no_hit() {
    let mut f = field(vec![], vec![hazard(0, 0)]);
    f.bullets = vec![Bullet { body: BoundingCircle { center: Point { x: 100, y: 0 }, radius: 5 } }];
    assert!(!f.check_for_bullet_collisions());
    assert_eq!(f.hazards, vec![hazard(0, 0)]);
    assert_eq!(f.bullets.len(), 1);
}

#[test]
fn laser_clears_a_hazard_it_crosses() {
    let mut f = field(vec![ship(0, 0)], vec![hazard(60, 0), hazard(60, 200)]);
    f.lasers = vec![Laser { body: Aabb { center: Point { x: 50, y: 0 }, half_w: 50, half_h: 2 } }];
    assert!(f.check_for_laser_collisions());
    assert_eq!(f.hazards, vec![hazard(60, 200)]);
    assert!(f.lasers.is_empty());
    assert_eq!(f.players, vec![ship(0, 0)]);
}

#[test]
fn spawn_points_cover_the_field() {
    assert_eq!(spawn_point(0, 0, 800, 600), Point { x: -400, y: -300 });
    assert_eq!(spawn_point(u32::MAX, u32::MAX, 800, 600), Point { x: 400, y: 300 });
    assert_eq!(spawn_point(u32::MAX / 2, u32::MAX / 4, 800, 600), Point { x: -1, y: -151 });
    assert_eq!(spawn_point(u32::MAX, 0, 801, 0), Point { x: 401, y: 0 });
}

#[test]
fn spawned_ball_lies_in_the_field() {
    if let Some(h) = spawn_ball(800, 600) {
        assert!(-400 <= h.center.x && h.center.x <= 400);
        assert!(-300 <= h.center.y && h.center.y <= 300);
    }
}

#[test]
fn ship_in_view_is_left_alone() {
    let view = Aabb { center: Point { x: 0, y: 0 }, half_w: 400, half_h: 300 };
    let mut p = ship(390, -290);
    window_collision(&view, &mut p);
    assert_eq!(p, ship(390, -290));
}

#[test]
fn ship_out_of_view_is_brought_back_and_stopped() {
    let view = Aabb { center: Point { x: 0, y: 0 }, half_w: 400, half_h: 300 };
    let mut p = ship(395, -500);
    window_collision(&view, &mut p);
    assert_eq!(p.body.center, Point { x: 390, y: -290 });
    assert_eq!(p.velocity, Velocity { x: 0, y: 0 });
    assert_eq!((p.body.half_w, p.body.half_h), (10, 10));
}

#[test]
fn hazards_head_for_the_ship() {
    let v = calculate_ball_velocity(Point { x: 10, y: -20 }, Point { x: -5, y: 40 });
    assert_eq!(v, Velocity { x: 15, y: -60 });
}
