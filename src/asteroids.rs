//! The ship-and-hazards shooter: the player's ship, the hazards that drift
//! toward it, and the bullets and lasers that clear them.
use vstd::prelude::*;
use crate::geometry::{circle_hits_box, probe_hits, Aabb, BoundingCircle, Point, Probe};
use crate::collision::Velocity;
use crate::random::random_u32;
use vstd::arithmetic::div_mod::{lemma_div_by_multiple, lemma_div_is_ordered};

verus! {

/// Radius of a hazard.
pub const HAZARD_RADIUS: u32 = 15;

/// Half the side of the player's square ship.
pub const PLAYER_HALF_SIZE: u32 = 10;

/// The player's ship.
#[derive(Clone, Copy, Debug, PartialEq, Eq, Structural)]
pub struct Player {
    pub body: Aabb,
    pub velocity: Velocity,
}

impl Player {
    pub open spec fn fresh() -> Player {
        Player {
            body: Aabb { center: Point { x: 0, y: 0 }, half_w: PLAYER_HALF_SIZE, half_h: PLAYER_HALF_SIZE },
            velocity: Velocity { x: 0, y: 0 },
        }
    }

    /// A ship at rest at the spawn point, the center of the field.
    pub fn spawn() -> (r: Player)
        ensures
            r == Player::fresh(),
    {
        Player {
            body: Aabb { center: Point { x: 0, y: 0 }, half_w: PLAYER_HALF_SIZE, half_h: PLAYER_HALF_SIZE },
            velocity: Velocity { x: 0, y: 0 },
        }
    }
}

/// A round hazard that harms the player on contact.
#[derive(Clone, Copy, Debug, PartialEq, Eq, Structural)]
pub struct Hazard {
    pub center: Point,
}

impl Hazard {
    /// The circle the hazard occupies.
    pub open spec fn shape(self) -> BoundingCircle {
        BoundingCircle { center: self.center, radius: HAZARD_RADIUS }
    }

    /// The box around the hazard that projectiles are tested against.
    pub open spec fn bounds(self) -> Aabb {
        Aabb { center: self.center, half_w: HAZARD_RADIUS, half_h: HAZARD_RADIUS }
    }

    pub fn bounding_box(&self) -> (r: Aabb)
        ensures
            r == self.bounds(),
    {
        Aabb { center: self.center, half_w: HAZARD_RADIUS, half_h: HAZARD_RADIUS }
    }
}

/// A round shot fired by the player.
#[derive(Clone, Copy, Debug, PartialEq, Eq, Structural)]
pub struct Bullet {
    pub body: BoundingCircle,
}

/// A straight beam fired by the player.
#[derive(Clone, Copy, Debug, PartialEq, Eq, Structural)]
pub struct Laser {
    pub body: Aabb,
}

/// A projectile: something with a shape that is removed, together with the
/// hazard, when it touches one.
pub trait Projectile: Sized + Copy {
    spec fn shape(&self) -> Probe;

    fn probe(&self) -> (r: Probe)
        ensures
            r == self.shape(),
    ;
}

impl Projectile for Bullet {
    open spec fn shape(&self) -> Probe {
        Probe::Circle(self.body)
    }

    fn probe(&self) -> (r: Probe) {
        Probe::Circle(self.body)
    }
}

impl Projectile for Laser {
    open spec fn shape(&self) -> Probe {
        Probe::Rect(self.body)
    }

    fn probe(&self) -> (r: Probe) {
        Probe::Rect(self.body)
    }
}

/// The index of the first hazard of `hs`, from index `from` on, that the
/// probe `p` touches.
pub open spec fn first_touch(p: Probe, hs: Seq<Hazard>, from: int) -> Option<int>
    decreases hs.len() - from,
{
    if from < 0 || from >= hs.len() {
        None
    } else if probe_hits(p, hs[from].bounds()) {
        Some(from)
    } else {
        first_touch(p, hs, from + 1)
    }
}

/// A first touch found from index `from` lies at or after it, inside `hs`,
/// and is a touch.
proof fn lemma_first_touch_in_range(p: Probe, hs: Seq<Hazard>, from: int)
    ensures
        first_touch(p, hs, from) matches Some(k) ==> from <= k < hs.len() && probe_hits(
            p,
            hs[k].bounds(),
        ),
    decreases hs.len() - from,
{
    if 0 <= from < hs.len() && !probe_hits(p, hs[from].bounds()) {
        lemma_first_touch_in_range(p, hs, from + 1);
    }
}

/// The projectiles and hazards left after each projectile of `ps`, in
/// order, has been tested against the hazards still present: a projectile
/// that touches one is removed together with the first hazard it touches.
pub open spec fn touch_pass<T: Projectile>(ps: Seq<T>, hs: Seq<Hazard>) -> (Seq<T>, Seq<Hazard>)
    decreases ps.len(),
{
    if ps.len() == 0 {
        (ps, hs)
    } else {
        let (kept, left) = touch_pass(ps.drop_last(), hs);
        match first_touch(ps.last().shape(), left, 0) {
            Some(k) => (kept, left.remove(k)),
            None => (kept.push(ps.last()), left),
        }
    }
}

/// The first hazard of `hazards` that `probe` touches, if any.
fn find_touch(probe: &Probe, hazards: &Vec<Hazard>) -> (r: Option<usize>)
    ensures
        match first_touch(*probe, hazards@, 0) {
            Some(k) => r == Some(k as usize),
            None => r is None,
        },
        r matches Some(k) ==> k < hazards.len(),
{
    let mut j: usize = 0;
    while j < hazards.len()
        invariant
            0 <= j <= hazards.len(),
            first_touch(*probe, hazards@, 0) == first_touch(*probe, hazards@, j as int),
        decreases hazards.len() - j,
    {
        let b = hazards[j].bounding_box();
        if probe.intersects(&b) {
            return Some(j);
        }
        j = j + 1;
    }
    None
}

/// Tests each projectile, in order, against the hazards still present;
/// one that touches a hazard is removed together with the first hazard it
/// touches, so it cannot strike a second one. Returns whether anything was
/// touched.
fn remove_on_touch<T: Projectile>(projectiles: &mut Vec<T>, hazards: &mut Vec<Hazard>) -> (hit: bool)
    ensures
        (final(projectiles)@, final(hazards)@) == touch_pass(old(projectiles)@, old(hazards)@),
        hit == (final(projectiles).len() < old(projectiles).len()),
{
    let ghost ps0 = projectiles@;
    let ghost hs0 = hazards@;
    let mut kept: Vec<T> = Vec::new();
    let mut i: usize = 0;
    let n = projectiles.len();
    while i < n
        invariant
            0 <= i <= n,
            n == projectiles.len(),
            projectiles@ == ps0,
            (kept@, hazards@) == touch_pass(ps0.take(i as int), hs0),
            kept.len() <= i,
        decreases n - i,
    {
        let p = projectiles[i];
        proof {
            let next = ps0.take(i + 1);
            assert(next.drop_last() == ps0.take(i as int));
            assert(next.last() == p);
        }
        let shape = p.probe();
        proof {
            lemma_first_touch_in_range(shape, hazards@, 0);
        }
        match find_touch(&shape, hazards) {
            Some(k) => {
                hazards.remove(k);
            },
            None => {
                kept.push(p);
            },
        }
        i = i + 1;
    }
    proof {
        assert(ps0.take(n as int) == ps0);
    }
    let hit = kept.len() < n;
    *projectiles = kept;
    hit
}

/// The shooter's field: the player's ships, the hazards, and the player's
/// bullets and lasers.
pub struct Field {
    pub players: Vec<Player>,
    pub hazards: Vec<Hazard>,
    pub bullets: Vec<Bullet>,
    pub lasers: Vec<Laser>,
}

/// Whether hazard `h` touches the ship `p`.
pub open spec fn harms(h: Hazard, p: Player) -> bool {
    circle_hits_box(h.shape(), p.body)
}

impl Field {
    /// Whether some hazard touches some ship.
    pub open spec fn player_harmed(&self) -> bool {
        exists|i: int, j: int|
            0 <= i < self.hazards.len() && 0 <= j < self.players.len() && harms(
                #[trigger] self.hazards[i],
                #[trigger] self.players[j],
            )
    }

    /// When any hazard touches any ship, all hazards and ships are removed
    /// and a single fresh ship is spawned, however many contacts there
    /// were. Returns whether that happened.
    pub fn check_for_ball_collisions(&mut self) -> (respawned: bool)
        ensures
            respawned == old(self).player_harmed(),
            respawned ==> final(self).hazards@.len() == 0 && final(self).players@ == seq![
                Player::fresh(),
            ],
            !respawned ==> final(self).hazards@ == old(self).hazards@ && final(self).players@ == old(
                self,
            ).players@,
            final(self).bullets@ == old(self).bullets@,
            final(self).lasers@ == old(self).lasers@,
    {
        let mut harmed = false;
        let mut i: usize = 0;
        while i < self.hazards.len()
            invariant
                0 <= i <= self.hazards.len(),
                self == old(self),
                harmed == exists|k: int, j: int|
                    0 <= k < i && 0 <= j < self.players.len() && harms(
                        #[trigger] self.hazards[k],
                        #[trigger] self.players[j],
                    ),
            decreases self.hazards.len() - i,
        {
            let circle = BoundingCircle { center: self.hazards[i].center, radius: HAZARD_RADIUS };
            let mut j: usize = 0;
            while j < self.players.len()
                invariant
                    0 <= i < self.hazards.len(),
                    0 <= j <= self.players.len(),
                    self == old(self),
                    circle == self.hazards[i as int].shape(),
                    harmed == ((exists|k: int, m: int|
                        0 <= k < i && 0 <= m < self.players.len() && harms(
                            #[trigger] self.hazards[k],
                            #[trigger] self.players[m],
                        )) || exists|m: int|
                        0 <= m < j && harms(self.hazards[i as int], #[trigger] self.players[m])),
                decreases self.players.len() - j,
            {
                if self.players[j].body.intersects_circle(&circle) {
                    harmed = true;
                }
                j = j + 1;
            }
            proof {
                if harmed && !exists|k: int, m: int|
                    0 <= k < i && 0 <= m < self.players.len() && harms(
                        #[trigger] self.hazards[k],
                        #[trigger] self.players[m],
                    ) {
                    let m = choose|m: int|
                        0 <= m < self.players.len() && harms(
                            self.hazards[i as int],
                            #[trigger] self.players[m],
                        );
                    assert(harms(self.hazards[i as int], self.players[m]));
                }
            }
            i = i + 1;
        }
        if harmed {
            self.hazards = Vec::new();
            self.players = Vec::new();
            self.players.push(Player::spawn());
            proof {
                assert(self.players@ =~= seq![Player::fresh()]);
            }
        }
        harmed
    }

    /// Bullets against hazards: a bullet that touches a hazard is removed
    /// with it. Returns whether any bullet touched a hazard.
    pub fn check_for_bullet_collisions(&mut self) -> (hit: bool)
        ensures
            (final(self).bullets@, final(self).hazards@) == touch_pass(
                old(self).bullets@,
                old(self).hazards@,
            ),
            hit == (final(self).bullets.len() < old(self).bullets.len()),
            final(self).players@ == old(self).players@,
            final(self).lasers@ == old(self).lasers@,
    {
        remove_on_touch(&mut self.bullets, &mut self.hazards)
    }

    /// Lasers against hazards: a laser that touches a hazard is removed
    /// with it. Returns whether any laser touched a hazard.
    pub fn check_for_laser_collisions(&mut self) -> (hit: bool)
        ensures
            (final(self).lasers@, final(self).hazards@) == touch_pass(
                old(self).lasers@,
                old(self).hazards@,
            ),
            hit == (final(self).lasers.len() < old(self).lasers.len()),
            final(self).players@ == old(self).players@,
            final(self).bullets@ == old(self).bullets@,
    {
        remove_on_touch(&mut self.lasers, &mut self.hazards)
    }
}

/// One coordinate of a spawn point: `roll` scaled from `[0, u32::MAX]` onto
/// `[0, extent]`, less half the extent, so that the field of that extent,
/// centered on the origin, is covered.
pub open spec fn spawn_coord(roll: u32, extent: u32) -> int {
    (roll * extent) / (u32::MAX as int) - extent / 2
}

/// The spawn coordinate for `roll` over a field `extent` wide.
fn spawn_coordinate(roll: u32, extent: u32) -> (r: i32)
    requires
        extent <= i32::MAX,
    ensures
        r == spawn_coord(roll, extent),
{
    proof {
        let m = u32::MAX as int;
        assert(roll * extent <= m * extent) by (nonlinear_arith)
            requires
                0 <= roll <= m,
                0 <= extent,
        ;
        assert(extent * m == m * extent) by (nonlinear_arith);
        lemma_div_is_ordered(roll * extent, extent * m, m);
        lemma_div_by_multiple(extent as int, m);
        assert(0 <= roll * extent) by (nonlinear_arith)
            requires
                0 <= roll,
                0 <= extent,
        ;
        lemma_div_is_ordered(0, roll * extent, m);
        assert(m * extent <= m * 0x7fff_ffff) by (nonlinear_arith)
            requires
                0 <= extent <= 0x7fff_ffff,
                m > 0,
        ;
    }
    let scaled: u64 = roll as u64 * extent as u64;
    let q: u64 = scaled / (u32::MAX as u64);
    (q as i64 - (extent / 2) as i64) as i32
}

/// The spawn point that the rolls `roll_x` and `roll_y` select in a field
/// `width` by `height` centered on the origin.
pub fn spawn_point(roll_x: u32, roll_y: u32, width: u32, height: u32) -> (r: Point)
    requires
        width <= i32::MAX,
        height <= i32::MAX,
    ensures
        r.x == spawn_coord(roll_x, width),
        r.y == spawn_coord(roll_y, height),
{
    Point { x: spawn_coordinate(roll_x, width), y: spawn_coordinate(roll_y, height) }
}

/// A new hazard at a random point of a field `width` by `height` centered
/// on the origin, or `None` when the random source fails, in which case the
/// spawn is skipped and may be tried again later.
pub fn spawn_ball(width: u32, height: u32) -> (r: Option<Hazard>)
    requires
        width <= i32::MAX,
        height <= i32::MAX,
    ensures
        r matches Some(h) ==> exists|rx: u32, ry: u32|
            h.center.x == spawn_coord(rx, width) && h.center.y == spawn_coord(ry, height),
{
    let roll_x = match random_u32() {
        Ok(x) => x,
        Err(_) => {
            return None;
        },
    };
    let roll_y = match random_u32() {
        Ok(y) => y,
        Err(_) => {
            return None;
        },
    };
    Some(Hazard { center: spawn_point(roll_x, roll_y, width, height) })
}

/// The velocity that carries a hazard at `from` to the ship at `target` in
/// one second: the difference of their centers.
pub fn calculate_ball_velocity(target: Point, from: Point) -> (r: Velocity)
    requires
        i32::MIN < target.x - from.x <= i32::MAX,
        i32::MIN < target.y - from.y <= i32::MAX,
    ensures
        r.x == target.x - from.x,
        r.y == target.y - from.y,
        r.negatable(),
{
    Velocity { x: target.x - from.x, y: target.y - from.y }
}

pub open spec fn min(a: int, b: int) -> int {
    if a < b {
        a
    } else {
        b
    }
}

pub open spec fn max(a: int, b: int) -> int {
    if a > b {
        a
    } else {
        b
    }
}

/// The part of `view` where a body with half extents `half_w`, `half_h`
/// may have its center and lie wholly inside: `(lo_x, hi_x, lo_y, hi_y)`.
pub open spec fn view_range(view: Aabb, half_w: u32, half_h: u32) -> (int, int, int, int) {
    (view.min_x() + half_w, view.max_x() - half_w, view.min_y() + half_h, view.max_y() - half_h)
}

/// Keeps `player` inside `view`: a ship whose center has left the range
/// where it lies wholly in view is moved back (first raised to the low
/// bound, then lowered to the high one) and stopped. A ship in range is
/// left alone.
pub fn window_collision(view: &Aabb, player: &mut Player)
    requires
        ({
            let (lo_x, hi_x, lo_y, hi_y) = view_range(*view, old(player).body.half_w, old(player).body.half_h);
            &&& i32::MIN <= lo_x <= i32::MAX
            &&& i32::MIN <= hi_x <= i32::MAX
            &&& i32::MIN <= lo_y <= i32::MAX
            &&& i32::MIN <= hi_y <= i32::MAX
        }),
    ensures
        ({
            let (lo_x, hi_x, lo_y, hi_y) = view_range(*view, old(player).body.half_w, old(player).body.half_h);
            let c = old(player).body.center;
            if lo_x <= c.x <= hi_x && lo_y <= c.y <= hi_y {
                *final(player) == *old(player)
            } else {
                &&& final(player).body.center.x == min(max(c.x as int, lo_x), hi_x)
                &&& final(player).body.center.y == min(max(c.y as int, lo_y), hi_y)
                &&& final(player).body.half_w == old(player).body.half_w
                &&& final(player).body.half_h == old(player).body.half_h
                &&& final(player).velocity == (Velocity { x: 0, y: 0 })
            }
        }),
{
    let lo_x: i64 = view.center.x as i64 - view.half_w as i64 + player.body.half_w as i64;
    let hi_x: i64 = view.center.x as i64 + view.half_w as i64 - player.body.half_w as i64;
    let lo_y: i64 = view.center.y as i64 - view.half_h as i64 + player.body.half_h as i64;
    let hi_y: i64 = view.center.y as i64 + view.half_h as i64 - player.body.half_h as i64;
    let x = player.body.center.x as i64;
    let y = player.body.center.y as i64;
    let in_view = x >= lo_x && x <= hi_x && y >= lo_y && y <= hi_y;
    if !in_view {
        let rx = if x > lo_x { x } else { lo_x };
        let rx = if rx < hi_x { rx } else { hi_x };
        let ry = if y > lo_y { y } else { lo_y };
        let ry = if ry < hi_y { ry } else { hi_y };
        player.body.center = Point { x: rx as i32, y: ry as i32 };
        player.velocity = Velocity { x: 0, y: 0 };
    }
}

} // verus!
