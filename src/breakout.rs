//! The brick-breaker game: its pieces, its arena and the rules applied when
//! a ball strikes something.
use vstd::prelude::*;
use vstd::arithmetic::power::{lemma_pow0, lemma_pow1, lemma_pow_adds, pow};
use crate::geometry::{circle_hits_box, clamp, Aabb, BoundingCircle, Point, Probe};
use crate::random::random_u32;
use crate::collision::{ball_collision, detect_spec, respond, respond_spec, Velocity};

verus! {

/// Radius of every ball.
pub const BALL_RADIUS: u32 = 15;

/// Where a newly launched ball starts.
pub const BALL_START_X: i32 = 0;

pub const BALL_START_Y: i32 = -50;

/// Ball speed at the start of a game, in field units per second.
pub const BALL_SPEED: u32 = 400;

/// Each speed brick multiplies the ball speed by this numerator over
/// `SPEED_MULTIPLIER_DEN`.
pub const SPEED_MULTIPLIER_NUM: u32 = 105;

pub const SPEED_MULTIPLIER_DEN: u32 = 100;

/// Relative weights with which a new brick is of each type.
pub const BRICK_WEIGHT_NORMAL: u32 = 7;

pub const BRICK_WEIGHT_SPEED: u32 = 2;

pub const BRICK_WEIGHT_EXTRA_BALL: u32 = 1;

pub const WALL_THICKNESS: u32 = 10;

pub const LEFT_WALL: i32 = -800;

pub const RIGHT_WALL: i32 = 800;

pub const BOTTOM_WALL: i32 = -450;

pub const TOP_WALL: i32 = 400;

pub const PADDLE_WIDTH: u32 = 120;

pub const PADDLE_HEIGHT: u32 = 20;

pub const GAP_BETWEEN_PADDLE_AND_FLOOR: i32 = 60;

pub const BRICK_WIDTH: u32 = 100;

pub const BRICK_HEIGHT: u32 = 30;

pub const GAP_BETWEEN_PADDLE_AND_BRICKS: i32 = 270;

pub const GAP_BETWEEN_BRICKS: u32 = 5;

/// The least gaps between the bricks and the ceiling and side walls; the
/// real gaps are larger when the space does not divide evenly into bricks.
pub const GAP_BETWEEN_BRICKS_AND_CEILING: i32 = 20;

pub const GAP_BETWEEN_BRICKS_AND_SIDES: i32 = 20;

/// How close the paddle may get to a side wall.
pub const PADDLE_PADDING: i32 = 10;

/// The kinds of brick, which differ in what a hit on them does besides scoring.
#[derive(Clone, Copy, Debug, PartialEq, Eq, Structural)]
pub enum BrickType {
    Normal,
    Speed,
    ExtraBall,
}

/// The brick type drawn by a random 32-bit `roll`: the unit interval,
/// scaled to `u32::MAX`, is cut in proportion to the weights. The top
/// value itself falls past the last cut and gives a normal brick.
pub open spec fn brick_for_roll(roll: u32) -> BrickType {
    let total = BRICK_WEIGHT_NORMAL + BRICK_WEIGHT_SPEED + BRICK_WEIGHT_EXTRA_BALL;
    if roll * total < BRICK_WEIGHT_NORMAL * u32::MAX {
        BrickType::Normal
    } else if roll * total < (BRICK_WEIGHT_NORMAL + BRICK_WEIGHT_SPEED) * u32::MAX {
        BrickType::Speed
    } else if roll * total < total * u32::MAX {
        BrickType::ExtraBall
    } else {
        BrickType::Normal
    }
}

impl BrickType {
    /// The weights of normal, speed and extra-ball bricks, in that order.
    pub fn weights() -> (r: Vec<u32>)
        ensures
            r@ == seq![BRICK_WEIGHT_NORMAL, BRICK_WEIGHT_SPEED, BRICK_WEIGHT_EXTRA_BALL],
    {
        vec![BRICK_WEIGHT_NORMAL, BRICK_WEIGHT_SPEED, BRICK_WEIGHT_EXTRA_BALL]
    }

    /// The brick type that a random `roll` selects.
    pub fn from_roll(roll: u32) -> (r: BrickType)
        ensures
            r == brick_for_roll(roll),
    {
        let weights = BrickType::weights();
        let total: u64 = weights[0] as u64 + weights[1] as u64 + weights[2] as u64;
        let scaled: u64 = roll as u64 * total;
        let mut cumulative: u64 = 0;
        let mut i: usize = 0;
        while i < 3
            invariant
                0 <= i <= 3,
                weights@ == seq![BRICK_WEIGHT_NORMAL, BRICK_WEIGHT_SPEED, BRICK_WEIGHT_EXTRA_BALL],
                total == 10,
                scaled == roll * 10,
                i == 0 ==> cumulative == 0,
                i == 1 ==> cumulative == 7 && scaled >= 7 * u32::MAX,
                i == 2 ==> cumulative == 9 && scaled >= 9 * u32::MAX,
                i == 3 ==> scaled >= 10 * u32::MAX,
            decreases 3 - i,
        {
            cumulative = cumulative + weights[i] as u64;
            if scaled < cumulative * (u32::MAX as u64) {
                return if i == 0 {
                    BrickType::Normal
                } else if i == 1 {
                    BrickType::Speed
                } else {
                    BrickType::ExtraBall
                };
            }
            i = i + 1;
        }
        BrickType::Normal
    }

    /// A brick type drawn from the system's random source; a failed draw
    /// counts as a roll of zero, which gives a normal brick.
    pub fn random() -> (r: BrickType)
        ensures
            exists|roll: u32| r == brick_for_roll(roll),
    {
        let roll: u32 = match random_u32() {
            Ok(x) => x,
            Err(_) => 0,
        };
        BrickType::from_roll(roll)
    }
}

impl Default for BrickType {
    fn default() -> (r: BrickType)
        ensures
            r == BrickType::Normal,
    {
        BrickType::Normal
    }
}

/// The shared ball speed: the starting speed times the multiplier once per
/// speed brick hit so far. It grows without bound.
#[derive(Clone, Copy, Debug, PartialEq, Eq, Structural)]
pub struct Speed {
    pub initial: u32,
    pub boosts: u64,
}

impl Speed {
    /// Numerator of the exact speed.
    pub open spec fn numer(self) -> int {
        self.initial * pow(SPEED_MULTIPLIER_NUM as int, self.boosts as nat)
    }

    /// Denominator of the exact speed.
    pub open spec fn denom(self) -> int {
        pow(SPEED_MULTIPLIER_DEN as int, self.boosts as nat)
    }

    /// Multiplies the speed by the speed-brick multiplier.
    pub fn boost(&mut self)
        requires
            old(self).boosts < u64::MAX,
        ensures
            final(self).initial == old(self).initial,
            final(self).boosts == old(self).boosts + 1,
            final(self).numer() == old(self).numer() * SPEED_MULTIPLIER_NUM,
            final(self).denom() == old(self).denom() * SPEED_MULTIPLIER_DEN,
    {
        self.boosts = self.boosts + 1;
        proof {
            lemma_speed_compounds(*old(self), 1);
            lemma_pow1(SPEED_MULTIPLIER_NUM as int);
            lemma_pow1(SPEED_MULTIPLIER_DEN as int);
        }
    }
}

impl Default for Speed {
    fn default() -> (r: Speed)
        ensures
            r.initial == BALL_SPEED,
            r.boosts == 0,
            r.numer() == BALL_SPEED,
            r.denom() == 1,
    {
        proof {
            lemma_pow0(SPEED_MULTIPLIER_NUM as int);
            lemma_pow0(SPEED_MULTIPLIER_DEN as int);
        }
        Speed { initial: BALL_SPEED, boosts: 0 }
    }
}

/// After `n` more speed-brick hits, the exact speed is the earlier one times
/// the multiplier to the power `n`: numerator times 105^n over denominator
/// times 100^n.
pub proof fn lemma_speed_compounds(s: Speed, n: nat)
    requires
        s.boosts + n <= u64::MAX,
    ensures
        (Speed { initial: s.initial, boosts: (s.boosts + n) as u64 }).numer() == s.numer() * pow(
            SPEED_MULTIPLIER_NUM as int,
            n,
        ),
        (Speed { initial: s.initial, boosts: (s.boosts + n) as u64 }).denom() == s.denom() * pow(
            SPEED_MULTIPLIER_DEN as int,
            n,
        ),
{
    let t = Speed { initial: s.initial, boosts: (s.boosts + n) as u64 };
    lemma_pow_adds(SPEED_MULTIPLIER_NUM as int, s.boosts as nat, n);
    lemma_pow_adds(SPEED_MULTIPLIER_DEN as int, s.boosts as nat, n);
    assert(t.boosts as nat == s.boosts as nat + n);
    assert(t.numer() == s.initial * (pow(SPEED_MULTIPLIER_NUM as int, s.boosts as nat) * pow(
        SPEED_MULTIPLIER_NUM as int,
        n,
    )));
    vstd::arithmetic::mul::lemma_mul_is_associative(
        s.initial as int,
        pow(SPEED_MULTIPLIER_NUM as int, s.boosts as nat),
        pow(SPEED_MULTIPLIER_NUM as int, n),
    );
}

/// A ball: its center and the direction it travels in. Every ball moves at
/// the shared `Speed`.
#[derive(Clone, Copy, Debug, PartialEq, Eq, Structural)]
pub struct Ball {
    pub center: Point,
    pub velocity: Velocity,
}

impl Ball {
    /// A ball at the launch point, heading down and to the right.
    pub open spec fn launched() -> Ball {
        Ball { center: Point { x: BALL_START_X, y: BALL_START_Y }, velocity: Velocity { x: 1i32, y: -1i32 } }
    }

    /// The circle a ball occupies.
    pub open spec fn shape(self) -> BoundingCircle {
        BoundingCircle { center: self.center, radius: BALL_RADIUS }
    }

    /// A new ball at the launch point, heading down and to the right.
    pub fn launch() -> (r: Ball)
        ensures
            r == Ball::launched(),
    {
        Ball { center: Point { x: BALL_START_X, y: BALL_START_Y }, velocity: Velocity { x: 1, y: -1 } }
    }
}

/// Anything a ball bounces off: a wall, the paddle or a brick.
#[derive(Clone, Copy, Debug, PartialEq, Eq, Structural)]
pub struct Collider {
    pub bounds: Aabb,
    pub brick: Option<BrickType>,
}

/// Which side of the arena a wall stands on.
#[derive(Clone, Copy, Debug, PartialEq, Eq, Structural)]
pub enum WallLocation {
    Left,
    Right,
    Bottom,
    Top,
}

impl WallLocation {
    pub open spec fn center(self) -> Point {
        match self {
            WallLocation::Left => Point { x: LEFT_WALL, y: 0 },
            WallLocation::Right => Point { x: RIGHT_WALL, y: 0 },
            WallLocation::Bottom => Point { x: 0, y: BOTTOM_WALL },
            WallLocation::Top => Point { x: 0, y: TOP_WALL },
        }
    }

    /// Width and height of the wall: side walls span the arena's height,
    /// the others its width, each with one wall thickness added.
    pub open spec fn extent(self) -> (u32, u32) {
        match self {
            WallLocation::Left | WallLocation::Right => (
                WALL_THICKNESS,
                (TOP_WALL - BOTTOM_WALL + WALL_THICKNESS) as u32,
            ),
            WallLocation::Bottom | WallLocation::Top => (
                (RIGHT_WALL - LEFT_WALL + WALL_THICKNESS) as u32,
                WALL_THICKNESS,
            ),
        }
    }

    /// The center of the wall.
    pub fn position(&self) -> (r: Point)
        ensures
            r == self.center(),
    {
        match self {
            WallLocation::Left => Point { x: LEFT_WALL, y: 0 },
            WallLocation::Right => Point { x: RIGHT_WALL, y: 0 },
            WallLocation::Bottom => Point { x: 0, y: BOTTOM_WALL },
            WallLocation::Top => Point { x: 0, y: TOP_WALL },
        }
    }

    /// Width and height of the wall.
    pub fn size(&self) -> (r: (u32, u32))
        ensures
            r == self.extent(),
    {
        let arena_height: u32 = (TOP_WALL - BOTTOM_WALL) as u32;
        let arena_width: u32 = (RIGHT_WALL - LEFT_WALL) as u32;
        match self {
            WallLocation::Left | WallLocation::Right => (WALL_THICKNESS, arena_height + WALL_THICKNESS),
            WallLocation::Bottom | WallLocation::Top => (arena_width + WALL_THICKNESS, WALL_THICKNESS),
        }
    }

    /// The collider of the wall.
    pub fn collider(&self) -> (r: Collider)
        ensures
            r.brick is None,
            r.bounds.center == self.center(),
            2 * r.bounds.half_w == self.extent().0,
            2 * r.bounds.half_h == self.extent().1,
    {
        let center = self.position();
        let (w, h) = self.size();
        Collider { bounds: Aabb { center, half_w: w / 2, half_h: h / 2 }, brick: None }
    }
}

/// Height of the paddle's center.
pub open spec fn paddle_y() -> int {
    BOTTOM_WALL + GAP_BETWEEN_PADDLE_AND_FLOOR
}

/// Leftmost center the paddle may take.
pub open spec fn paddle_left_bound() -> int {
    LEFT_WALL + WALL_THICKNESS / 2 + PADDLE_WIDTH / 2 + PADDLE_PADDING
}

/// Rightmost center the paddle may take.
pub open spec fn paddle_right_bound() -> int {
    RIGHT_WALL - WALL_THICKNESS / 2 - PADDLE_WIDTH / 2 - PADDLE_PADDING
}

/// The paddle's new center after moving `displacement` from `x`, kept
/// inside the arena.
pub fn move_paddle(x: i32, displacement: i32) -> (r: i32)
    ensures
        r == clamp(x + displacement, paddle_left_bound(), paddle_right_bound()),
{
    let left_bound: i64 = LEFT_WALL as i64 + (WALL_THICKNESS / 2) as i64 + (PADDLE_WIDTH / 2) as i64
        + PADDLE_PADDING as i64;
    let right_bound: i64 = RIGHT_WALL as i64 - (WALL_THICKNESS / 2) as i64 - (PADDLE_WIDTH / 2) as i64
        - PADDLE_PADDING as i64;
    let moved: i64 = x as i64 + displacement as i64;
    let r = if moved < left_bound {
        left_bound
    } else if moved > right_bound {
        right_bound
    } else {
        moved
    };
    r as i32
}

/// The paddle's collider, centered at `x` on the paddle's row.
pub fn paddle_collider(x: i32) -> (r: Collider)
    ensures
        r.brick is None,
        r.bounds == (Aabb {
            center: Point { x, y: paddle_y() as i32 },
            half_w: PADDLE_WIDTH / 2,
            half_h: PADDLE_HEIGHT / 2,
        }),
{
    let y: i32 = BOTTOM_WALL + GAP_BETWEEN_PADDLE_AND_FLOOR;
    Collider {
        bounds: Aabb { center: Point { x, y }, half_w: PADDLE_WIDTH / 2, half_h: PADDLE_HEIGHT / 2 },
        brick: None,
    }
}

/// What a ball's hit on a collider causes besides the ball's reflection.
#[derive(Clone, Copy, Debug, PartialEq, Eq, Structural)]
pub struct ResponseEffects {
    /// The collider is removed.
    pub despawn_obstacle: bool,
    /// Points added to the score.
    pub points: u64,
    /// The shared ball speed is multiplied by the speed-brick multiplier.
    pub speed_up: bool,
    /// One new ball is launched.
    pub spawn_ball: bool,
}

/// The effects of a hit on a collider that is the brick `brick`, or a wall
/// or the paddle when `brick` is `None`.
pub open spec fn effects_of(brick: Option<BrickType>) -> ResponseEffects {
    match brick {
        None => ResponseEffects { despawn_obstacle: false, points: 0, speed_up: false, spawn_ball: false },
        Some(t) => ResponseEffects {
            despawn_obstacle: true,
            points: 1,
            speed_up: t == BrickType::Speed,
            spawn_ball: t == BrickType::ExtraBall,
        },
    }
}

/// The effects of a hit on a collider: nothing for a wall or the paddle;
/// for a brick, its removal and one point, plus a speed-up for a speed
/// brick or a new ball for an extra-ball brick.
pub fn on_collision(brick: Option<BrickType>) -> (r: ResponseEffects)
    ensures
        r == effects_of(brick),
{
    match brick {
        None => ResponseEffects { despawn_obstacle: false, points: 0, speed_up: false, spawn_ball: false },
        Some(t) => ResponseEffects {
            despawn_obstacle: true,
            points: 1,
            speed_up: match t {
                BrickType::Speed => true,
                _ => false,
            },
            spawn_ball: match t {
                BrickType::ExtraBall => true,
                _ => false,
            },
        },
    }
}

/// Whether ball `b` overlaps collider `c`.
pub open spec fn strikes(b: Ball, c: Collider) -> bool {
    circle_hits_box(b.shape(), c.bounds)
}

/// Whether collider `c` is a brick of the kind `kind` asks for: any brick
/// when `kind` is `None`, a brick of type `t` when it is `Some(t)`.
pub open spec fn brick_matches(c: Collider, kind: Option<BrickType>) -> bool {
    match kind {
        None => c.brick is Some,
        Some(t) => c.brick == Some(t),
    }
}

/// How many of the colliders `cs` ball `b` strikes that are bricks of `kind`.
pub open spec fn ball_brick_hits(b: Ball, cs: Seq<Collider>, kind: Option<BrickType>) -> nat
    decreases cs.len(),
{
    if cs.len() == 0 {
        0
    } else {
        ball_brick_hits(b, cs.drop_last(), kind) + if strikes(b, cs.last()) && brick_matches(
            cs.last(),
            kind,
        ) {
            1nat
        } else {
            0nat
        }
    }
}

/// A ball strikes at most every collider once.
proof fn lemma_ball_brick_hits_bounded(b: Ball, cs: Seq<Collider>, kind: Option<BrickType>)
    ensures
        ball_brick_hits(b, cs, kind) <= cs.len(),
    decreases cs.len(),
{
    if cs.len() > 0 {
        lemma_ball_brick_hits_bounded(b, cs.drop_last(), kind);
    }
}

/// How many (ball, brick of `kind`) pairs of `bs` and `cs` overlap.
pub open spec fn brick_hits(bs: Seq<Ball>, cs: Seq<Collider>, kind: Option<BrickType>) -> nat
    decreases bs.len(),
{
    if bs.len() == 0 {
        0
    } else {
        brick_hits(bs.drop_last(), cs, kind) + ball_brick_hits(bs.last(), cs, kind)
    }
}

/// The velocity of ball `b` after it has been tested against the colliders
/// `cs` in order, reflecting off each one it overlaps.
pub open spec fn velocity_after(b: Ball, cs: Seq<Collider>) -> Velocity
    decreases cs.len(),
{
    if cs.len() == 0 {
        b.velocity
    } else {
        let v = velocity_after(b, cs.drop_last());
        match detect_spec(Probe::Circle(b.shape()), b.center, cs.last().bounds) {
            Some(side) => respond_spec(side, v),
            None => v,
        }
    }
}

/// A collider is destroyed when it is a brick and some ball overlaps it.
pub open spec fn destroyed(bs: Seq<Ball>, c: Collider) -> bool {
    c.brick is Some && exists|i: int| 0 <= i < bs.len() && strikes(#[trigger] bs[i], c)
}

/// The colliders of `cs` that are not destroyed, in their order.
pub open spec fn survivors(bs: Seq<Ball>, cs: Seq<Collider>) -> Seq<Collider>
    decreases cs.len(),
{
    if cs.len() == 0 {
        cs
    } else {
        let rest = survivors(bs, cs.drop_last());
        if destroyed(bs, cs.last()) {
            rest
        } else {
            rest.push(cs.last())
        }
    }
}

/// What the effects of one collision pass add up to.
struct Tally {
    hit: bool,
    bricks: u64,
    speed_ups: u64,
    extra_balls: u64,
}

/// Tests `ball` against every collider in order: reflects its velocity off
/// each one it overlaps, marks the bricks it overlaps in `struck`, and
/// counts in `tally` what those hits do.
fn sweep_ball(ball: &Ball, colliders: &Vec<Collider>, struck: &mut Vec<bool>, tally: &mut Tally) -> (r:
    Velocity)
    requires
        ball.velocity.negatable(),
        old(struck).len() == colliders.len(),
        old(tally).bricks + colliders.len() <= u64::MAX,
        old(tally).speed_ups + colliders.len() <= u64::MAX,
        old(tally).extra_balls + colliders.len() <= u64::MAX,
    ensures
        r == velocity_after(*ball, colliders@),
        r.negatable(),
        final(struck).len() == colliders.len(),
        forall|j: int|
            0 <= j < colliders.len() ==> #[trigger] final(struck)[j] == (old(struck)[j] || (
            colliders[j].brick is Some && strikes(*ball, colliders[j]))),
        final(tally).hit == (old(tally).hit || exists|j: int|
            0 <= j < colliders.len() && strikes(*ball, #[trigger] colliders[j])),
        final(tally).bricks == old(tally).bricks + ball_brick_hits(*ball, colliders@, None),
        final(tally).speed_ups == old(tally).speed_ups + ball_brick_hits(
            *ball,
            colliders@,
            Some(BrickType::Speed),
        ),
        final(tally).extra_balls == old(tally).extra_balls + ball_brick_hits(
            *ball,
            colliders@,
            Some(BrickType::ExtraBall),
        ),
{
    let circle = BoundingCircle { center: ball.center, radius: BALL_RADIUS };
    let mut v = ball.velocity;
    let mut j: usize = 0;
    while j < colliders.len()
        invariant
            0 <= j <= colliders.len(),
            circle == ball.shape(),
            ball.velocity.negatable(),
            v == velocity_after(*ball, colliders@.take(j as int)),
            v.negatable(),
            struck.len() == colliders.len(),
            forall|m: int|
                0 <= m < colliders.len() ==> #[trigger] struck[m] == (old(struck)[m] || (m < j
                    && colliders[m].brick is Some && strikes(*ball, colliders[m]))),
            tally.hit == (old(tally).hit || exists|m: int|
                0 <= m < j && strikes(*ball, #[trigger] colliders[m])),
            tally.bricks == old(tally).bricks + ball_brick_hits(*ball, colliders@.take(j as int), None),
            tally.speed_ups == old(tally).speed_ups + ball_brick_hits(
                *ball,
                colliders@.take(j as int),
                Some(BrickType::Speed),
            ),
            tally.extra_balls == old(tally).extra_balls + ball_brick_hits(
                *ball,
                colliders@.take(j as int),
                Some(BrickType::ExtraBall),
            ),
            ball_brick_hits(*ball, colliders@.take(j as int), None) <= j,
            ball_brick_hits(*ball, colliders@.take(j as int), Some(BrickType::Speed)) <= j,
            ball_brick_hits(*ball, colliders@.take(j as int), Some(BrickType::ExtraBall)) <= j,
            old(tally).bricks + colliders.len() <= u64::MAX,
            old(tally).speed_ups + colliders.len() <= u64::MAX,
            old(tally).extra_balls + colliders.len() <= u64::MAX,
        decreases colliders.len() - j,
    {
        let c = colliders[j];
        proof {
            let next = colliders@.take(j + 1);
            assert(next.drop_last() == colliders@.take(j as int));
            assert(next.last() == c);
        }
        match ball_collision(&circle, &c.bounds) {
            Some(side) => {
                tally.hit = true;
                let effects = on_collision(c.brick);
                if effects.despawn_obstacle {
                    struck.set(j, true);
                }
                tally.bricks = tally.bricks + effects.points;
                if effects.speed_up {
                    tally.speed_ups = tally.speed_ups + 1;
                }
                if effects.spawn_ball {
                    tally.extra_balls = tally.extra_balls + 1;
                }
                v = respond(side, v);
            },
            None => {},
        }
        j = j + 1;
    }
    proof {
        assert(colliders@.take(colliders.len() as int) == colliders@);
    }
    v
}

/// The brick-breaker arena: balls, the colliders they bounce off, the score
/// and the shared ball speed.
pub struct Arena {
    pub balls: Vec<Ball>,
    pub colliders: Vec<Collider>,
    pub score: u64,
    pub speed: Speed,
}

impl Arena {
    /// Every ball's velocity can be reflected on both axes.
    pub open spec fn wf(&self) -> bool {
        forall|i: int| 0 <= i < self.balls.len() ==> (#[trigger] self.balls[i]).velocity.negatable()
    }

    /// The counters can take one more step for every (ball, collider) pair.
    pub open spec fn has_room(&self) -> bool {
        let pairs = self.balls.len() * self.colliders.len();
        &&& self.score + pairs <= u64::MAX
        &&& self.speed.boosts + pairs <= u64::MAX
        &&& self.balls.len() + pairs <= usize::MAX
    }

    /// One collision pass: every ball is tested against every collider as
    /// they stood at the start of the pass. A ball reflects off each
    /// collider it overlaps, in collider order. Each (ball, brick) overlap
    /// scores one point, and in addition speeds the balls up for a speed
    /// brick or launches one new ball for an extra-ball brick. Every brick
    /// that was hit is removed when the pass ends. Returns whether anything
    /// collided.
    pub fn check_for_collisions(&mut self) -> (hit: bool)
        requires
            old(self).wf(),
            old(self).has_room(),
        ensures
            final(self).wf(),
            hit == exists|i: int, j: int|
                0 <= i < old(self).balls.len() && 0 <= j < old(self).colliders.len() && strikes(
                    #[trigger] old(self).balls[i],
                    #[trigger] old(self).colliders[j],
                ),
            final(self).score == old(self).score + brick_hits(
                old(self).balls@,
                old(self).colliders@,
                None,
            ),
            final(self).speed.initial == old(self).speed.initial,
            final(self).speed.boosts == old(self).speed.boosts + brick_hits(
                old(self).balls@,
                old(self).colliders@,
                Some(BrickType::Speed),
            ),
            final(self).colliders@ == survivors(old(self).balls@, old(self).colliders@),
            final(self).balls.len() == old(self).balls.len() + brick_hits(
                old(self).balls@,
                old(self).colliders@,
                Some(BrickType::ExtraBall),
            ),
            forall|i: int|
                0 <= i < old(self).balls.len() ==> #[trigger] final(self).balls[i] == (Ball {
                    center: old(self).balls[i].center,
                    velocity: velocity_after(old(self).balls[i], old(self).colliders@),
                }),
            forall|i: int|
                old(self).balls.len() <= i < final(self).balls.len() ==> #[trigger] final(self).balls[i]
                    == Ball::launched(),
    {
        let n_balls = self.balls.len();
        let n_cols = self.colliders.len();
        let ghost pairs = n_balls * n_cols;
        let mut struck: Vec<bool> = Vec::new();
        let mut j: usize = 0;
        while j < n_cols
            invariant
                0 <= j <= n_cols,
                struck.len() == j,
                forall|m: int| 0 <= m < j ==> !#[trigger] struck[m],
            decreases n_cols - j,
        {
            struck.push(false);
            j = j + 1;
        }
        let mut tally = Tally { hit: false, bricks: 0, speed_ups: 0, extra_balls: 0 };
        let mut moved: Vec<Ball> = Vec::new();
        let mut i: usize = 0;
        while i < n_balls
            invariant
                0 <= i <= n_balls,
                n_balls == self.balls.len(),
                n_cols == self.colliders.len(),
                self.wf(),
                self.has_room(),
                pairs == n_balls * n_cols,
                self == old(self),
                struck.len() == n_cols,
                forall|m: int|
                    0 <= m < n_cols ==> #[trigger] struck[m] == (self.colliders[m].brick is Some
                        && exists|k: int| 0 <= k < i && strikes(#[trigger] self.balls[k], self.colliders[m])),
                tally.hit == exists|k: int, m: int|
                    0 <= k < i && 0 <= m < n_cols && strikes(
                        #[trigger] self.balls[k],
                        #[trigger] self.colliders[m],
                    ),
                tally.bricks == brick_hits(self.balls@.take(i as int), self.colliders@, None),
                tally.speed_ups == brick_hits(
                    self.balls@.take(i as int),
                    self.colliders@,
                    Some(BrickType::Speed),
                ),
                tally.extra_balls == brick_hits(
                    self.balls@.take(i as int),
                    self.colliders@,
                    Some(BrickType::ExtraBall),
                ),
                tally.bricks <= i * n_cols,
                tally.speed_ups <= i * n_cols,
                tally.extra_balls <= i * n_cols,
                moved.len() == i,
                forall|k: int|
                    0 <= k < i ==> #[trigger] moved[k] == (Ball {
                        center: self.balls[k].center,
                        velocity: velocity_after(self.balls[k], self.colliders@),
                    }),
                forall|k: int| 0 <= k < i ==> (#[trigger] moved[k]).velocity.negatable(),
            decreases n_balls - i,
        {
            let ball = self.balls[i];
            proof {
                assert(i * n_cols + n_cols == (i + 1) * n_cols) by (nonlinear_arith);
                assert((i + 1) * n_cols <= n_balls * n_cols) by (nonlinear_arith)
                    requires
                        i + 1 <= n_balls,
                ;
                let next = self.balls@.take(i + 1);
                assert(next.drop_last() == self.balls@.take(i as int));
                assert(next.last() == ball);
                lemma_ball_brick_hits_bounded(ball, self.colliders@, None);
                lemma_ball_brick_hits_bounded(ball, self.colliders@, Some(BrickType::Speed));
                lemma_ball_brick_hits_bounded(ball, self.colliders@, Some(BrickType::ExtraBall));
            }
            let ghost before = tally;
            let v = sweep_ball(&ball, &self.colliders, &mut struck, &mut tally);
            proof {
                assert forall|m: int| 0 <= m < n_cols implies #[trigger] struck[m] == (
                self.colliders[m].brick is Some && exists|k: int|
                    0 <= k < i + 1 && strikes(#[trigger] self.balls[k], self.colliders[m])) by {
                    if self.colliders[m].brick is Some && strikes(ball, self.colliders[m]) {
                        assert(strikes(self.balls[i as int], self.colliders[m]));
                    }
                }
                if tally.hit && !before.hit {
                    let m = choose|m: int| 0 <= m < n_cols && strikes(ball, #[trigger] self.colliders[m]);
                    assert(strikes(self.balls[i as int], self.colliders[m]));
                }
            }
            moved.push(Ball { center: ball.center, velocity: v });
            i = i + 1;
        }
        proof {
            assert(self.balls@.take(n_balls as int) == self.balls@);
        }
        let mut kept: Vec<Collider> = Vec::new();
        let mut j: usize = 0;
        while j < n_cols
            invariant
                0 <= j <= n_cols,
                n_balls == self.balls.len(),
                n_cols == self.colliders.len(),
                self == old(self),
                struck.len() == n_cols,
                forall|m: int|
                    0 <= m < n_cols ==> #[trigger] struck[m] == destroyed(
                        self.balls@,
                        self.colliders[m],
                    ),
                kept@ == survivors(self.balls@, self.colliders@.take(j as int)),
            decreases n_cols - j,
        {
            proof {
                let next = self.colliders@.take(j + 1);
                assert(next.drop_last() == self.colliders@.take(j as int));
                assert(next.last() == self.colliders[j as int]);
            }
            if !struck[j] {
                kept.push(self.colliders[j]);
            }
            j = j + 1;
        }
        proof {
            assert(self.colliders@.take(n_cols as int) == self.colliders@);
        }
        let hit = tally.hit;
        self.score = self.score + tally.bricks;
        let mut s: u64 = 0;
        while s < tally.speed_ups
            invariant
                s <= tally.speed_ups,
                self.score == old(self).score + tally.bricks,
                self.speed.initial == old(self).speed.initial,
                self.speed.boosts == old(self).speed.boosts + s,
                old(self).speed.boosts + tally.speed_ups <= u64::MAX,
            decreases tally.speed_ups - s,
        {
            self.speed.boost();
            s = s + 1;
        }
        let mut e: u64 = 0;
        while e < tally.extra_balls
            invariant
                e <= tally.extra_balls,
                self.score == old(self).score + tally.bricks,
                n_balls == old(self).balls.len(),
                moved.len() == n_balls + e,
                n_balls + tally.extra_balls <= usize::MAX,
                forall|k: int| 0 <= k < n_balls ==> #[trigger] moved[k] == (Ball {
                    center: old(self).balls[k].center,
                    velocity: velocity_after(old(self).balls[k], old(self).colliders@),
                }),
                forall|k: int| n_balls <= k < moved.len() ==> #[trigger] moved[k] == Ball::launched(),
                forall|k: int| 0 <= k < n_balls ==> (#[trigger] moved[k]).velocity.negatable(),
            decreases tally.extra_balls - e,
        {
            moved.push(Ball::launch());
            e = e + 1;
        }
        self.balls = moved;
        self.colliders = kept;
        hit
    }
}

/// How many columns of bricks fit between the side walls.
pub open spec fn brick_columns() -> int {
    (RIGHT_WALL - LEFT_WALL - 2 * GAP_BETWEEN_BRICKS_AND_SIDES) / (BRICK_WIDTH + GAP_BETWEEN_BRICKS) as int
}

/// Height of the bottom edge of the lowest row of bricks.
pub open spec fn bricks_bottom() -> int {
    paddle_y() + GAP_BETWEEN_PADDLE_AND_BRICKS
}

/// How many rows of bricks fit between their bottom edge and the ceiling.
pub open spec fn brick_rows() -> int {
    (TOP_WALL - bricks_bottom() - GAP_BETWEEN_BRICKS_AND_CEILING) / (BRICK_HEIGHT
        + GAP_BETWEEN_BRICKS) as int
}

/// Center of the leftmost bricks: the grid is centered between the walls,
/// rounded down to a whole field unit.
pub open spec fn first_brick_x() -> int {
    (LEFT_WALL + RIGHT_WALL - brick_columns() * BRICK_WIDTH - (brick_columns() - 1)
        * GAP_BETWEEN_BRICKS + BRICK_WIDTH) / 2
}

/// Center of the lowest bricks.
pub open spec fn first_brick_y() -> int {
    bricks_bottom() + BRICK_HEIGHT / 2
}

/// The center of the brick in grid row `row` and column `col`.
pub open spec fn brick_center(row: int, col: int) -> Point {
    Point {
        x: (first_brick_x() + col * (BRICK_WIDTH + GAP_BETWEEN_BRICKS)) as i32,
        y: (first_brick_y() + row * (BRICK_HEIGHT + GAP_BETWEEN_BRICKS)) as i32,
    }
}

/// The centers of the bricks of a new game, row by row from the bottom,
/// each row from left to right.
pub fn brick_layout() -> (r: Vec<Point>)
    ensures
        r.len() == brick_rows() * brick_columns(),
        forall|row: int, col: int|
            0 <= row < brick_rows() && 0 <= col < brick_columns() ==> #[trigger] r[row
                * brick_columns() + col] == brick_center(row, col),
{
    let total_width: u32 = (RIGHT_WALL as i64 - LEFT_WALL as i64 - 2 * GAP_BETWEEN_BRICKS_AND_SIDES as i64) as u32;
    let bottom_edge: i32 = BOTTOM_WALL + GAP_BETWEEN_PADDLE_AND_FLOOR + GAP_BETWEEN_PADDLE_AND_BRICKS;
    let total_height: u32 = (TOP_WALL - bottom_edge - GAP_BETWEEN_BRICKS_AND_CEILING) as u32;
    let n_columns: u32 = total_width / (BRICK_WIDTH + GAP_BETWEEN_BRICKS);
    let n_rows: u32 = total_height / (BRICK_HEIGHT + GAP_BETWEEN_BRICKS);
    assert(total_width == 1560 && total_height == 500);
    assert(n_columns == 14 && n_rows == 14) by (nonlinear_arith)
        requires
            n_columns == 1560u32 / 105u32,
            n_rows == 500u32 / 35u32,
    ;
    assert(brick_columns() == 14 && brick_rows() == 14) by (nonlinear_arith)
        requires
            brick_columns() == 1560int / 105int,
            brick_rows() == 500int / 35int,
    ;
    // Twice the distance from the arena's center to the leftmost brick center.
    let span: u32 = n_columns * BRICK_WIDTH + (n_columns - 1) * GAP_BETWEEN_BRICKS - BRICK_WIDTH;
    let center_x: i32 = 0;
    assert(LEFT_WALL + RIGHT_WALL == 2 * center_x);
    let offset_x: i32 = center_x - ((span + 1) / 2) as i32;
    let offset_y: i32 = bottom_edge + (BRICK_HEIGHT / 2) as i32;
    assert(offset_x == first_brick_x());
    assert(offset_y == first_brick_y());
    let step_x: u32 = BRICK_WIDTH + GAP_BETWEEN_BRICKS;
    let step_y: u32 = BRICK_HEIGHT + GAP_BETWEEN_BRICKS;
    let mut r: Vec<Point> = Vec::new();
    let mut row: u32 = 0;
    while row < n_rows
        invariant
            n_rows == 14,
            n_columns == 14,
            step_x == 105,
            step_y == 35,
            brick_rows() == 14,
            brick_columns() == 14,
            offset_x == first_brick_x(),
            offset_y == first_brick_y(),
            0 <= row <= n_rows,
            r.len() == row * 14,
            forall|rr: int, cc: int|
                0 <= rr < row && 0 <= cc < 14 ==> #[trigger] r[rr * 14 + cc] == brick_center(rr, cc),
        decreases n_rows - row,
    {
        let mut col: u32 = 0;
        while col < n_columns
            invariant
                n_rows == 14,
                n_columns == 14,
                step_x == 105,
                step_y == 35,
                offset_x == first_brick_x(),
                offset_y == first_brick_y(),
                0 <= row < n_rows,
                0 <= col <= n_columns,
                r.len() == row * 14 + col,
                forall|rr: int, cc: int|
                    0 <= rr < row && 0 <= cc < 14 ==> #[trigger] r[rr * 14 + cc] == brick_center(rr, cc),
                forall|cc: int| 0 <= cc < col ==> #[trigger] r[row * 14 + cc] == brick_center(row as int, cc),
            decreases n_columns - col,
        {
            let x: i32 = offset_x + (col * step_x) as i32;
            let y: i32 = offset_y + (row * step_y) as i32;
            r.push(Point { x, y });
            col = col + 1;
        }
        row = row + 1;
    }
    r
}

} // verus!
